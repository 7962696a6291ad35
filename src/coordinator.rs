//! The lifecycle coordinator: answers "what is this invoice's status now",
//! expiring, settling and promoting invoices as it goes.
//!
//! Every operation takes `&mut self` (or `&self`), so a whole
//! transition-and-promote sequence runs as one critical section: whoever
//! shares a coordinator between callers wraps it in a single lock.
use vstd::prelude::*;

use crate::encoding::{hex_of, payment_id_of};
use crate::invoice::{
    amount_in_range, copy_opt, validate_amount, CreateInvoiceRequest, Invoice, InvoiceError,
    InvoiceState, INVOICE_TTL_SECONDS,
};
use crate::ledger::{
    donation_for, donation_index, has_donation, lemma_append_wf, ledger_wf, recent_of, total_of,
    Donation, DonationLedger, DonationStats,
};
use crate::settlement::PaymentVerifier;
use crate::store::{
    has_invoice, invoice_for, invoice_index, lemma_remove_wf, store_wf, survives_sweep, swept,
    InvoiceStore,
};

verus! {

/// What a status query reports.
#[derive(Clone, Copy, Debug, PartialEq, Eq, Structural)]
pub enum PaymentStatus {
    /// Known and waiting for settlement.
    Pending,
    /// Settled at the given time.
    Paid(i64),
    /// Outlived its expiry without being settled.
    Expired,
    /// Never created, or already cleaned up.
    NotFound,
}

/// The store and the ledger, as one value.
pub type Books = (Seq<Invoice>, Seq<Donation>);

/// The donor name recorded for a donation: the given one, or "Anonymous".
pub open spec fn donor_or_anonymous(name: Option<String>) -> Seq<char> {
    match name {
        Some(n) => n@,
        None => "Anonymous"@,
    }
}

/// `d` is the ledger record of invoice `inv`, settled at `paid_at`.
pub open spec fn records(d: Donation, inv: Invoice, paid_at: i64) -> bool {
    &&& d.payment_id == inv.payment_id
    &&& d.amount == inv.amount
    &&& d.donor_name@ == donor_or_anonymous(inv.donor_name)
    &&& d.recipient == inv.recipient
    &&& d.paid_at == paid_at
    &&& d.id@ != d.payment_id@
}

/// An invoice in the store of well-formed books: still pending, and not in the ledger.
pub open spec fn held_ok(inv: Invoice, ledger: Seq<Donation>) -> bool {
    inv.state == InvoiceState::Pending && !has_donation(ledger, inv.payment_id@)
}

/// The books' invariant: no identifier twice in either place, none in both,
/// only Pending invoices in the store, record identifiers apart from payment ones.
pub open spec fn books_wf(b: Books) -> bool {
    &&& store_wf(b.0)
    &&& ledger_wf(b.1)
    &&& forall|i: int| 0 <= i < b.0.len() ==> #[trigger] held_ok(b.0[i], b.1)
    &&& forall|j: int| 0 <= j < b.1.len() ==> #[trigger] b.1[j].id@ != b.1[j].payment_id@
}

/// Whether a query for `id` at `now` would consult the verifier: the
/// payment is not recorded, and its invoice is held and not overdue.
pub open spec fn awaits_verdict(b: Books, id: Seq<char>, now: i64) -> bool {
    !has_donation(b.1, id) && has_invoice(b.0, id) && now < invoice_for(b.0, id).expires_at
}

/// What a query for `id` at `now` reports, given the verifier's verdict.
pub open spec fn poll_status(b: Books, id: Seq<char>, now: i64, settled: bool) -> PaymentStatus {
    if has_donation(b.1, id) {
        PaymentStatus::Paid(donation_for(b.1, id).paid_at)
    } else if !has_invoice(b.0, id) {
        PaymentStatus::NotFound
    } else if invoice_for(b.0, id).expires_at <= now {
        PaymentStatus::Expired
    } else if settled {
        PaymentStatus::Paid(now)
    } else {
        PaymentStatus::Pending
    }
}

/// Whether a query for `id` at `now` promotes the invoice into the ledger.
pub open spec fn promotes(b: Books, id: Seq<char>, now: i64, settled: bool) -> bool {
    awaits_verdict(b, id, now) && settled
}

/// The store after a query for `id` at `now`: a promoted or overdue invoice leaves it.
pub open spec fn store_after(b: Books, id: Seq<char>, now: i64, settled: bool) -> Seq<Invoice> {
    if !has_donation(b.1, id) && has_invoice(b.0, id) && (invoice_for(b.0, id).expires_at <= now
        || settled) {
        b.0.remove(invoice_index(b.0, id))
    } else {
        b.0
    }
}

/// One status query for `id` at `now` with verdict `settled`, taking `pre`
/// to `post` and reporting `status`.
pub open spec fn poll_step(
    pre: Books,
    id: Seq<char>,
    now: i64,
    settled: bool,
    post: Books,
    status: PaymentStatus,
) -> bool {
    &&& status == poll_status(pre, id, now, settled)
    &&& post.0 == store_after(pre, id, now, settled)
    &&& if promotes(pre, id, now, settled) {
        &&& post.1.len() == pre.1.len() + 1
        &&& post.1.drop_last() == pre.1
        &&& records(post.1.last(), invoice_for(pre.0, id), now)
    } else {
        post.1 == pre.1
    }
}

/// Relies on `uuid::Uuid::new_v4` for a random identifier, written by its
/// `Display` impl in the hyphenated form, which is always 36 characters long.
#[verifier::external_body]
fn fresh_record_id() -> (r: String)
    ensures
        r@.len() == 36,
{
    uuid::Uuid::new_v4().to_string()
}

/// The invoice store and the donation ledger, kept consistent together.
pub struct Coordinator {
    store: InvoiceStore,
    ledger: DonationLedger,
}

impl View for Coordinator {
    type V = Books;

    closed spec fn view(&self) -> Books {
        (self.store@, self.ledger@)
    }
}

impl Coordinator {
    pub open spec fn wf(&self) -> bool {
        books_wf(self@)
    }

    /// No invoices and no donations.
    pub fn new() -> (r: Coordinator)
        ensures
            r.wf(),
            r@.0 == Seq::<Invoice>::empty(),
            r@.1 == Seq::<Donation>::empty(),
    {
        Coordinator { store: InvoiceStore::new(), ledger: DonationLedger::new() }
    }

    /// Records a Pending invoice for `request` under `payment_hash`, carrying
    /// the encoded request `wire`; overdue invoices are swept first. Nothing
    /// changes on an error.
    pub fn create_invoice(
        &mut self,
        request: &CreateInvoiceRequest,
        payment_hash: &[u8; 32],
        wire: String,
        now: i64,
    ) -> (r: Result<Invoice, InvoiceError>)
        requires
            old(self).wf(),
            now <= i64::MAX - INVOICE_TTL_SECONDS,
        ensures
            final(self).wf(),
            !amount_in_range(request.amount) ==> r == Err::<Invoice, InvoiceError>(
                InvoiceError::InvalidAmount,
            ),
            amount_in_range(request.amount) && (has_invoice(old(self)@.0, hex_of(payment_hash@))
                || has_donation(old(self)@.1, hex_of(payment_hash@))) ==> r == Err::<
                Invoice,
                InvoiceError,
            >(InvoiceError::DuplicatePayment),
            r is Err ==> final(self)@ == old(self)@,
            r is Ok <==> amount_in_range(request.amount) && !has_invoice(
                old(self)@.0,
                hex_of(payment_hash@),
            ) && !has_donation(old(self)@.1, hex_of(payment_hash@)),
            r matches Ok(inv) ==> {
                &&& inv.payment_id@ == hex_of(payment_hash@)
                &&& inv.wire == wire
                &&& inv.amount == request.amount
                &&& inv.donor_name == request.donor_name
                &&& inv.recipient == request.recipient
                &&& inv.created_at == now
                &&& inv.expires_at == now + INVOICE_TTL_SECONDS
                &&& inv.state == InvoiceState::Pending
                &&& inv.paid_at is None
                &&& final(self)@.0 == swept(old(self)@.0, now).push(inv)
                &&& final(self)@.1 == old(self)@.1
            },
    {
        if validate_amount(request.amount).is_ok() {
            let payment_id = payment_id_of(payment_hash);
            if self.ledger.contains(&payment_id) {
                return Err(InvoiceError::DuplicatePayment);
            }
        }
        let ghost pre = self@;
        let r = self.store.create(request, payment_hash, wire, now);
        proof {
            if r is Ok {
                let s = self@.0;
                let old_swept = swept(pre.0, now);
                let pred = |inv: Invoice| survives_sweep(inv, now);
                assert forall|i: int| 0 <= i < s.len() implies #[trigger] held_ok(s[i], pre.1) by {
                    if i < old_swept.len() {
                        assert(s[i] == old_swept[i]);
                        assert(old_swept.contains(old_swept[i]));
                        pre.0.lemma_filter_contains_rev(pred, old_swept[i]);
                        let k = choose|k: int| 0 <= k < pre.0.len() && pre.0[k] == old_swept[i];
                        assert(held_ok(pre.0[k], pre.1));
                    }
                }
            }
        }
        r
    }

    /// The invoice that the verifier must judge for a query on `id` at `now`,
    /// if the query gets that far.
    pub fn pending_snapshot(&self, id: &String, now: i64) -> (r: Option<Invoice>)
        requires
            self.wf(),
        ensures
            r is Some <==> awaits_verdict(self@, id@, now),
            r matches Some(inv) ==> inv == invoice_for(self@.0, id@),
    {
        if self.ledger.contains(id) {
            return None;
        }
        match self.store.get(id) {
            Some(inv) => {
                if now < inv.expires_at {
                    Some(inv)
                } else {
                    None
                }
            },
            None => None,
        }
    }

    /// Answers a status query for `id` at `now`, with `settled` as the
    /// verifier's verdict (read only when the invoice is held and not overdue).
    /// A recorded payment reports Paid; an overdue invoice is expired and
    /// removed; a settled one is promoted into the ledger and removed.
    pub fn check_payment(&mut self, id: &String, now: i64, settled: bool) -> (r: PaymentStatus)
        requires
            old(self).wf(),
        ensures
            final(self).wf(),
            poll_step(old(self)@, id@, now, settled, final(self)@, r),
    {
        let ghost pre = self@;
        if let Some(d) = self.ledger.find(id) {
            return PaymentStatus::Paid(d.paid_at);
        }
        let inv = match self.store.get(id) {
            Some(inv) => inv,
            None => return PaymentStatus::NotFound,
        };
        let ghost idx = invoice_index(pre.0, id@);
        proof {
            lemma_remove_wf(pre.0, idx);
        }
        if inv.expires_at <= now {
            self.store.remove(id);
            proof {
                let s = self@.0;
                assert forall|i: int| 0 <= i < s.len() implies #[trigger] held_ok(s[i], pre.1) by {
                    assert(s[i] == pre.0[if i < idx { i } else { i + 1 }]);
                }
            }
            return PaymentStatus::Expired;
        }
        if !settled {
            return PaymentStatus::Pending;
        }
        let record = Donation {
            id: fresh_record_id(),
            donor_name: match &inv.donor_name {
                Some(name) => name.clone(),
                None => String::from_str("Anonymous"),
            },
            recipient: copy_opt(&inv.recipient),
            amount: inv.amount,
            payment_id: inv.payment_id.clone(),
            paid_at: now,
        };
        proof {
            assert(pre.0[idx].wf());
            lemma_append_wf(pre.1, record);
        }
        self.ledger.append(record);
        self.store.remove(id);
        proof {
            let s = self@.0;
            let l = self@.1;
            assert forall|i: int| 0 <= i < s.len() implies #[trigger] held_ok(s[i], l) by {
                let k = if i < idx {
                    i
                } else {
                    i + 1
                };
                assert(s[i] == pre.0[k]);
                assert(held_ok(pre.0[k], pre.1));
                if has_donation(l, s[i].payment_id@) {
                    let j = donation_index(l, s[i].payment_id@);
                    if j < pre.1.len() {
                        assert(l[j] == pre.1[j]);
                    } else {
                        assert(pre.0[k].payment_id@ == pre.0[idx].payment_id@);
                    }
                }
            }
            assert forall|j: int| 0 <= j < l.len() implies #[trigger] l[j].id@ != l[j].payment_id@ by {
                if j < pre.1.len() {
                    assert(l[j] == pre.1[j]);
                }
            }
            assert(l.drop_last() =~= pre.1);
        }
        PaymentStatus::Paid(now)
    }

    /// The operator's confirmation path: settles `id` at `now` without asking
    /// a verifier, under the same rules as [`Coordinator::check_payment`].
    pub fn confirm_payment(&mut self, id: &String, now: i64) -> (r: PaymentStatus)
        requires
            old(self).wf(),
        ensures
            final(self).wf(),
            poll_step(old(self)@, id@, now, true, final(self)@, r),
    {
        self.check_payment(id, now, true)
    }

    /// Answers a status query for `id` at `now`, asking `verifier` when the
    /// invoice is held and not overdue; a verifier error counts as "not settled".
    pub fn poll<V: PaymentVerifier>(&mut self, verifier: &V, id: &String, now: i64) -> (r:
        PaymentStatus)
        requires
            old(self).wf(),
        ensures
            final(self).wf(),
            poll_step(old(self)@, id@, now, false, final(self)@, r) || poll_step(
                old(self)@,
                id@,
                now,
                true,
                final(self)@,
                r,
            ),
    {
        let settled = match self.pending_snapshot(id, now) {
            Some(inv) => match verifier.is_settled(id, &inv) {
                Ok(verdict) => verdict,
                Err(_) => false,
            },
            None => false,
        };
        self.check_payment(id, now, settled)
    }

    /// Drops every invoice that is overdue at `now`.
    pub fn sweep_expired(&mut self, now: i64)
        requires
            old(self).wf(),
        ensures
            final(self).wf(),
            final(self)@.0 == swept(old(self)@.0, now),
            final(self)@.1 == old(self)@.1,
    {
        let ghost pre = self@;
        self.store.sweep(now);
        proof {
            let s = self@.0;
            let pred = |inv: Invoice| survives_sweep(inv, now);
            assert forall|i: int| 0 <= i < s.len() implies #[trigger] held_ok(s[i], pre.1) by {
                assert(s.contains(s[i]));
                pre.0.lemma_filter_contains_rev(pred, s[i]);
                let k = choose|k: int| 0 <= k < pre.0.len() && pre.0[k] == s[i];
                assert(held_ok(pre.0[k], pre.1));
            }
        }
    }

    /// A snapshot of the held invoice for `id`, if any.
    pub fn pending_invoice(&self, id: &String) -> (r: Option<Invoice>)
        requires
            self.wf(),
        ensures
            r is None <==> !has_invoice(self@.0, id@),
            r matches Some(inv) ==> inv == invoice_for(self@.0, id@),
    {
        self.store.get(id)
    }

    /// Number of invoices held.
    pub fn pending_count(&self) -> (r: usize)
        ensures
            r == self@.0.len(),
    {
        self.store.len()
    }

    /// The sum of all donated amounts and the number of donations.
    pub fn stats(&self) -> (r: DonationStats)
        ensures
            r.total_amount == total_of(self@.1),
            r.donor_count == self@.1.len(),
    {
        self.ledger.stats()
    }

    /// The last `n` donations, newest first.
    pub fn recent(&self, n: usize) -> (r: Vec<Donation>)
        ensures
            r@ == recent_of(self@.1, n as nat),
    {
        self.ledger.recent(n)
    }

    /// The donation recorded for payment `id`, for a receipt.
    pub fn receipt(&self, id: &String) -> (r: Option<Donation>)
        requires
            self.wf(),
        ensures
            r is None <==> !has_donation(self@.1, id@),
            r matches Some(d) ==> d == donation_for(self@.1, id@),
    {
        self.ledger.find(id)
    }
}

} // verus!
