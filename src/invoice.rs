//! Pending payment requests: their states, amount bounds, and drafting.
use rand::RngCore;
use vstd::prelude::*;

use crate::encoding::{description_of, hex_of, invoice_description, payment_id_of};

verus! {

/// Smallest amount that can be requested, in satoshis.
pub const MIN_AMOUNT: u64 = 100;

/// Largest amount that can be requested, in satoshis.
pub const MAX_AMOUNT: u64 = 1000000;

/// How long an invoice stays payable, in seconds.
pub const INVOICE_TTL_SECONDS: i64 = 3600;

/// Where an invoice stands. Paid and Expired are terminal.
#[derive(Clone, Copy, Debug, PartialEq, Eq, Structural)]
pub enum InvoiceState {
    Pending,
    Paid,
    Expired,
}

/// Why an invoice could not be drafted or recorded.
#[derive(Clone, Copy, Debug, PartialEq, Eq, Structural)]
pub enum InvoiceError {
    /// The amount lies outside `MIN_AMOUNT ..= MAX_AMOUNT`.
    InvalidAmount,
    /// The payment identifier is already known, pending or settled.
    DuplicatePayment,
}

/// What a donor asks for.
#[derive(Debug)]
pub struct CreateInvoiceRequest {
    pub amount: u64,
    pub donor_name: Option<String>,
    pub recipient: Option<String>,
}

/// A payment request waiting for settlement. Timestamps are seconds since
/// the Unix epoch.
#[derive(Debug)]
pub struct Invoice {
    /// Lowercase hex of the payment hash; unique among invoices.
    pub payment_id: String,
    /// The encoded payment request handed to the payer.
    pub wire: String,
    pub amount: u64,
    pub donor_name: Option<String>,
    pub recipient: Option<String>,
    pub created_at: i64,
    pub expires_at: i64,
    pub state: InvoiceState,
    /// Set exactly when `state` is `Paid`.
    pub paid_at: Option<i64>,
}

/// The fields that an invoice encoder needs, computed from a request.
#[derive(Debug)]
pub struct InvoiceDraft {
    pub payment_hash: [u8; 32],
    pub payment_id: String,
    pub description: String,
    pub amount_msat: u64,
    pub expiry_seconds: i64,
}

pub open spec fn amount_in_range(amount: u64) -> bool {
    MIN_AMOUNT <= amount <= MAX_AMOUNT
}

/// The view of an optional string.
pub open spec fn opt_view(s: Option<String>) -> Option<Seq<char>> {
    match s {
        Some(v) => Some(v@),
        None => None,
    }
}

impl Invoice {
    /// Consistency of a single record.
    pub open spec fn wf(&self) -> bool {
        &&& self.payment_id@.len() == 64
        &&& self.expires_at > self.created_at
        &&& (self.paid_at is Some <==> self.state == InvoiceState::Paid)
    }

    /// Whether an unsettled invoice has outlived its expiry at `now`.
    pub open spec fn overdue(&self, now: i64) -> bool {
        self.expires_at <= now && self.state != InvoiceState::Paid
    }

    /// A copy equal to `self`.
    pub fn snapshot(&self) -> (r: Invoice)
        ensures
            r == *self,
    {
        Invoice {
            payment_id: self.payment_id.clone(),
            wire: self.wire.clone(),
            amount: self.amount,
            donor_name: copy_opt(&self.donor_name),
            recipient: copy_opt(&self.recipient),
            created_at: self.created_at,
            expires_at: self.expires_at,
            state: self.state,
            paid_at: self.paid_at,
        }
    }
}

/// A copy of an optional string, equal to it.
pub fn copy_opt(s: &Option<String>) -> (r: Option<String>)
    ensures
        r == *s,
{
    match s {
        Some(v) => Some(v.clone()),
        None => None,
    }
}

/// Accepts exactly the amounts in `MIN_AMOUNT ..= MAX_AMOUNT`.
pub fn validate_amount(amount: u64) -> (r: Result<(), InvoiceError>)
    ensures
        r is Ok <==> amount_in_range(amount),
        r is Err ==> r == Err::<(), InvoiceError>(InvoiceError::InvalidAmount),
{
    if amount < MIN_AMOUNT || amount > MAX_AMOUNT {
        Err(InvoiceError::InvalidAmount)
    } else {
        Ok(())
    }
}

/// Relies on rand's thread-local generator (`rand::thread_rng` with
/// `RngCore::fill_bytes`) for 32 unpredictable bytes; nothing is promised of
/// their values. It panics only when the system's random source cannot seed it.
#[verifier::external_body]
fn random_payment_hash() -> (r: [u8; 32]) {
    let mut bytes = [0u8; 32];
    rand::thread_rng().fill_bytes(&mut bytes);
    bytes
}

/// Drafts the invoice for `request` under the given payment hash.
pub fn draft_with_hash(request: &CreateInvoiceRequest, payment_hash: [u8; 32]) -> (r: Result<
    InvoiceDraft,
    InvoiceError,
>)
    ensures
        r is Ok <==> amount_in_range(request.amount),
        r is Err ==> r == Err::<InvoiceDraft, InvoiceError>(InvoiceError::InvalidAmount),
        r matches Ok(d) ==> {
            &&& d.payment_hash == payment_hash
            &&& d.payment_id@ == hex_of(payment_hash@)
            &&& d.description@ == description_of(request.amount, opt_view(request.recipient))
            &&& d.amount_msat == request.amount * 1000
            &&& d.expiry_seconds == INVOICE_TTL_SECONDS
        },
{
    if let Err(e) = validate_amount(request.amount) {
        return Err(e);
    }
    let payment_id = payment_id_of(&payment_hash);
    let description = invoice_description(request.amount, &request.recipient);
    Ok(InvoiceDraft {
        payment_hash,
        payment_id,
        description,
        amount_msat: request.amount * 1000,
        expiry_seconds: INVOICE_TTL_SECONDS,
    })
}

/// Drafts the invoice for `request` under a freshly drawn random payment hash.
pub fn draft_invoice(request: &CreateInvoiceRequest) -> (r: Result<InvoiceDraft, InvoiceError>)
    ensures
        r is Ok <==> amount_in_range(request.amount),
        r is Err ==> r == Err::<InvoiceDraft, InvoiceError>(InvoiceError::InvalidAmount),
        r matches Ok(d) ==> {
            &&& d.payment_id@ == hex_of(d.payment_hash@)
            &&& d.description@ == description_of(request.amount, opt_view(request.recipient))
            &&& d.amount_msat == request.amount * 1000
            &&& d.expiry_seconds == INVOICE_TTL_SECONDS
        },
{
    if let Err(e) = validate_amount(request.amount) {
        return Err(e);
    }
    let hash = random_payment_hash();
    draft_with_hash(request, hash)
}

} // verus!
