//! Invoice lifecycle and reconciliation engine for a donation service.
//!
//! Payment requests are kept in an [`store::InvoiceStore`] while they wait for
//! settlement; settled ones are promoted exactly once into the append-only
//! [`ledger::DonationLedger`]. The [`coordinator::Coordinator`] owns both and
//! answers status queries through the Pending / Paid / Expired state machine.
use vstd::prelude::*;

pub mod coordinator;
pub mod guarantees;
pub mod encoding;
pub mod invoice;
pub mod ledger;
pub mod store;
pub mod settlement;

verus! {

} // verus!
