//! The store of invoices that are not settled yet, keyed by payment identifier.
use vstd::prelude::*;

use crate::encoding::{hex_of, payment_id_of};
use crate::invoice::{
    amount_in_range, copy_opt, CreateInvoiceRequest, Invoice, InvoiceError, InvoiceState,
    INVOICE_TTL_SECONDS, MIN_AMOUNT, MAX_AMOUNT,
};

verus! {

/// Whether some invoice of `s` has payment identifier `id`.
pub open spec fn has_invoice(s: Seq<Invoice>, id: Seq<char>) -> bool {
    exists|i: int| 0 <= i < s.len() && s[i].payment_id@ == id
}

/// The position of the invoice with identifier `id` (meaningful when there is one).
pub open spec fn invoice_index(s: Seq<Invoice>, id: Seq<char>) -> int {
    choose|i: int| 0 <= i < s.len() && s[i].payment_id@ == id
}

/// The invoice with identifier `id` (meaningful when there is one).
pub open spec fn invoice_for(s: Seq<Invoice>, id: Seq<char>) -> Invoice {
    s[invoice_index(s, id)]
}

/// No two invoices share a payment identifier.
pub open spec fn invoice_ids_unique(s: Seq<Invoice>) -> bool {
    forall|i: int, j: int|
        0 <= i < s.len() && 0 <= j < s.len() && s[i].payment_id@ == s[j].payment_id@ ==> i == j
}

/// Unique identifiers and consistent records.
pub open spec fn store_wf(s: Seq<Invoice>) -> bool {
    &&& invoice_ids_unique(s)
    &&& forall|i: int| 0 <= i < s.len() ==> #[trigger] s[i].wf()
}

/// What a sweep at `now` keeps: everything that is not overdue.
pub open spec fn survives_sweep(inv: Invoice, now: i64) -> bool {
    !inv.overdue(now)
}

/// The entries that survive a sweep at `now`, in their order.
pub open spec fn swept(s: Seq<Invoice>, now: i64) -> Seq<Invoice> {
    s.filter(|inv: Invoice| survives_sweep(inv, now))
}

/// With unique identifiers, the invoice found for `id` is the one at `i`.
pub proof fn lemma_invoice_index(s: Seq<Invoice>, id: Seq<char>, i: int)
    requires
        invoice_ids_unique(s),
        0 <= i < s.len(),
        s[i].payment_id@ == id,
    ensures
        has_invoice(s, id),
        invoice_index(s, id) == i,
        invoice_for(s, id) == s[i],
{
    let j = invoice_index(s, id);
    assert(0 <= j < s.len() && s[j].payment_id@ == id);
}

/// Removing one entry keeps the store well formed and drops exactly its identifier.
pub proof fn lemma_remove_wf(s: Seq<Invoice>, i: int)
    requires
        store_wf(s),
        0 <= i < s.len(),
    ensures
        store_wf(s.remove(i)),
        !has_invoice(s.remove(i), s[i].payment_id@),
        forall|id: Seq<char>|
            id != s[i].payment_id@ ==> (has_invoice(s.remove(i), id) == has_invoice(s, id)),
        forall|id: Seq<char>|
            id != s[i].payment_id@ && has_invoice(s, id) ==> invoice_for(s.remove(i), id)
                == invoice_for(s, id),
{
    let r = s.remove(i);
    assert forall|a: int| 0 <= a < r.len() implies r[a] == s[if a < i { a } else { a + 1 }] by {}
    assert forall|a: int| 0 <= a < r.len() implies #[trigger] r[a].wf() by {
        assert(r[a] == s[if a < i { a } else { a + 1 }]);
    }
    assert forall|a: int, b: int|
        0 <= a < r.len() && 0 <= b < r.len() && r[a].payment_id@ == r[b].payment_id@ implies a
        == b by {
        assert(r[a] == s[if a < i { a } else { a + 1 }]);
        assert(r[b] == s[if b < i { b } else { b + 1 }]);
    }
    if has_invoice(r, s[i].payment_id@) {
        let a = invoice_index(r, s[i].payment_id@);
        assert(r[a] == s[if a < i { a } else { a + 1 }]);
    }
    assert forall|id: Seq<char>| id != s[i].payment_id@ implies (has_invoice(r, id) == has_invoice(
        s,
        id,
    )) by {
        if has_invoice(s, id) {
            let j = invoice_index(s, id);
            assert(s[j] == r[if j < i { j } else { j - 1 }]);
        }
        if has_invoice(r, id) {
            let a = invoice_index(r, id);
            assert(r[a] == s[if a < i { a } else { a + 1 }]);
        }
    }
    assert forall|id: Seq<char>| id != s[i].payment_id@ && has_invoice(s, id) implies invoice_for(
        r,
        id,
    ) == invoice_for(s, id) by {
        let j = invoice_index(s, id);
        let a = if j < i { j } else { j - 1 };
        assert(s[j] == r[a]);
        lemma_invoice_index(r, id, a);
    }
}

/// Appending an invoice with a fresh identifier keeps the store well formed.
pub proof fn lemma_push_wf(s: Seq<Invoice>, inv: Invoice)
    requires
        store_wf(s),
        inv.wf(),
        !has_invoice(s, inv.payment_id@),
    ensures
        store_wf(s.push(inv)),
        invoice_for(s.push(inv), inv.payment_id@) == inv,
{
    let t = s.push(inv);
    assert forall|a: int| 0 <= a < t.len() implies #[trigger] t[a].wf() by {
        if a < s.len() {
            assert(t[a] == s[a]);
        }
    }
    assert forall|a: int, b: int|
        0 <= a < t.len() && 0 <= b < t.len() && t[a].payment_id@ == t[b].payment_id@ implies a
        == b by {
        if a < s.len() && b == s.len() {
            assert(t[a] == s[a]);
        }
        if b < s.len() && a == s.len() {
            assert(t[b] == s[b]);
        }
    }
    lemma_invoice_index(t, inv.payment_id@, s.len() as int);
}

/// Invoices that wait for settlement, at most one per payment identifier.
pub struct InvoiceStore {
    entries: Vec<Invoice>,
}

impl View for InvoiceStore {
    type V = Seq<Invoice>;

    closed spec fn view(&self) -> Seq<Invoice> {
        self.entries@
    }
}

impl InvoiceStore {
    pub open spec fn wf(&self) -> bool {
        store_wf(self@)
    }

    /// An empty store.
    pub fn new() -> (r: InvoiceStore)
        ensures
            r@ == Seq::<Invoice>::empty(),
            r.wf(),
    {
        InvoiceStore { entries: Vec::new() }
    }

    /// Number of invoices held.
    pub fn len(&self) -> (r: usize)
        ensures
            r == self@.len(),
    {
        self.entries.len()
    }

    fn position(&self, id: &String) -> (r: Option<usize>)
        requires
            self.wf(),
        ensures
            r is None <==> !has_invoice(self@, id@),
            r matches Some(i) ==> i < self@.len() && i == invoice_index(self@, id@)
                && self@[i as int].payment_id@ == id@,
    {
        let mut i: usize = 0;
        while i < self.entries.len()
            invariant
                store_wf(self@),
                i <= self.entries@.len(),
                forall|k: int| 0 <= k < i ==> self.entries@[k].payment_id@ != id@,
            decreases self.entries@.len() - i,
        {
            if self.entries[i].payment_id == *id {
                proof {
                    lemma_invoice_index(self@, id@, i as int);
                }
                return Some(i);
            }
            i += 1;
        }
        None
    }

    /// Whether an invoice with identifier `id` is held.
    pub fn contains(&self, id: &String) -> (r: bool)
        requires
            self.wf(),
        ensures
            r == has_invoice(self@, id@),
    {
        self.position(id).is_some()
    }

    /// A snapshot of the invoice with identifier `id`, if one is held.
    pub fn get(&self, id: &String) -> (r: Option<Invoice>)
        requires
            self.wf(),
        ensures
            r is None <==> !has_invoice(self@, id@),
            r matches Some(inv) ==> inv == invoice_for(self@, id@),
    {
        match self.position(id) {
            Some(i) => Some(self.entries[i].snapshot()),
            None => None,
        }
    }

    /// Replaces the invoice with the same identifier, or adds it if none is held.
    pub fn upsert(&mut self, invoice: Invoice)
        requires
            old(self).wf(),
            invoice.wf(),
        ensures
            final(self).wf(),
            has_invoice(old(self)@, invoice.payment_id@) ==> final(self)@ == old(self)@.update(
                invoice_index(old(self)@, invoice.payment_id@),
                invoice,
            ),
            !has_invoice(old(self)@, invoice.payment_id@) ==> final(self)@ == old(self)@.push(
                invoice,
            ),
            invoice_for(final(self)@, invoice.payment_id@) == invoice,
    {
        match self.position(&invoice.payment_id) {
            Some(i) => {
                let ghost s = self@;
                let ghost id = invoice.payment_id@;
                self.entries.set(i, invoice);
                proof {
                    let t = self@;
                    assert forall|a: int| 0 <= a < t.len() implies #[trigger] t[a].wf() by {
                        if a != i {
                            assert(t[a] == s[a]);
                        }
                    }
                    assert forall|a: int, b: int|
                        0 <= a < t.len() && 0 <= b < t.len() && t[a].payment_id@
                            == t[b].payment_id@ implies a == b by {
                        if a != i {
                            assert(t[a] == s[a]);
                        }
                        if b != i {
                            assert(t[b] == s[b]);
                        }
                    }
                    lemma_invoice_index(t, id, i as int);
                }
            },
            None => {
                proof {
                    lemma_push_wf(self@, invoice);
                }
                self.entries.push(invoice);
            },
        }
    }

    /// Deletes the invoice with identifier `id`, handing it back; a no-op when none is held.
    pub fn remove(&mut self, id: &String) -> (r: Option<Invoice>)
        requires
            old(self).wf(),
        ensures
            final(self).wf(),
            !has_invoice(final(self)@, id@),
            r is None <==> !has_invoice(old(self)@, id@),
            r is None ==> final(self)@ == old(self)@,
            r matches Some(inv) ==> inv == invoice_for(old(self)@, id@) && final(self)@ == old(
                self,
            )@.remove(invoice_index(old(self)@, id@)),
    {
        match self.position(id) {
            Some(i) => {
                proof {
                    lemma_remove_wf(self@, i as int);
                }
                Some(self.entries.remove(i))
            },
            None => None,
        }
    }

    /// Drops every invoice that is overdue at `now`; Paid ones are never dropped.
    pub fn sweep(&mut self, now: i64)
        requires
            old(self).wf(),
        ensures
            final(self).wf(),
            final(self)@ == swept(old(self)@, now),
    {
        let ghost s = self@;
        let ghost pred = |inv: Invoice| survives_sweep(inv, now);
        let mut kept: Vec<Invoice> = Vec::new();
        let ghost mut from: Seq<int> = Seq::empty();
        let mut i: usize = 0;
        while i < self.entries.len()
            invariant
                self@ == s,
                store_wf(s),
                pred == (|inv: Invoice| survives_sweep(inv, now)),
                i <= s.len(),
                kept@ == s.take(i as int).filter(pred),
                from.len() == kept@.len(),
                forall|k: int| 0 <= k < from.len() ==> 0 <= #[trigger] from[k] < i,
                forall|k: int| 0 <= k < from.len() ==> kept@[k] == s[#[trigger] from[k]],
                forall|a: int, b: int| 0 <= a < b < from.len() ==> from[a] < from[b],
            decreases s.len() - i,
        {
            let ghost t = s.take(i as int + 1);
            assert(t.drop_last() =~= s.take(i as int));
            assert(t.len() == i + 1);
            assert(t.last() == s[i as int]);
            let keep = !(self.entries[i].expires_at <= now && self.entries[i].state
                != InvoiceState::Paid);
            assert(keep == pred(s[i as int]));
            reveal(Seq::filter);
            assert(t.filter(pred) == if pred(t.last()) {
                t.drop_last().filter(pred).push(t.last())
            } else {
                t.drop_last().filter(pred)
            });
            if keep {
                kept.push(self.entries[i].snapshot());
                proof {
                    from = from.push(i as int);
                }
            }
            i += 1;
        }
        proof {
            assert(s.take(s.len() as int) =~= s);
            let t = kept@;
            assert forall|a: int| 0 <= a < t.len() implies #[trigger] t[a].wf() by {
                assert(t[a] == s[from[a]]);
            }
            assert forall|a: int, b: int|
                0 <= a < t.len() && 0 <= b < t.len() && t[a].payment_id@ == t[b].payment_id@ implies a
                == b by {
                assert(t[a] == s[from[a]]);
                assert(t[b] == s[from[b]]);
                if a < b {
                    assert(from[a] < from[b]);
                }
                if b < a {
                    assert(from[b] < from[a]);
                }
            }
        }
        self.entries = kept;
    }

    /// Records a new Pending invoice for `request` under `payment_hash`, after
    /// sweeping what is overdue at `now`. Nothing changes on an error.
    pub fn create(
        &mut self,
        request: &CreateInvoiceRequest,
        payment_hash: &[u8; 32],
        wire: String,
        now: i64,
    ) -> (r: Result<Invoice, InvoiceError>)
        requires
            old(self).wf(),
            now <= i64::MAX - INVOICE_TTL_SECONDS,
        ensures
            final(self).wf(),
            !amount_in_range(request.amount) ==> r == Err::<Invoice, InvoiceError>(
                InvoiceError::InvalidAmount,
            ),
            amount_in_range(request.amount) && has_invoice(old(self)@, hex_of(payment_hash@))
                ==> r == Err::<Invoice, InvoiceError>(InvoiceError::DuplicatePayment),
            r is Err ==> final(self)@ == old(self)@,
            r is Ok <==> amount_in_range(request.amount) && !has_invoice(
                old(self)@,
                hex_of(payment_hash@),
            ),
            r matches Ok(inv) ==> {
                &&& inv.payment_id@ == hex_of(payment_hash@)
                &&& inv.wire == wire
                &&& inv.amount == request.amount
                &&& inv.donor_name == request.donor_name
                &&& inv.recipient == request.recipient
                &&& inv.created_at == now
                &&& inv.expires_at == now + INVOICE_TTL_SECONDS
                &&& inv.state == InvoiceState::Pending
                &&& inv.paid_at is None
                &&& final(self)@ == swept(old(self)@, now).push(inv)
            },
    {
        if request.amount < MIN_AMOUNT || request.amount > MAX_AMOUNT {
            return Err(InvoiceError::InvalidAmount);
        }
        let payment_id = payment_id_of(payment_hash);
        if self.contains(&payment_id) {
            return Err(InvoiceError::DuplicatePayment);
        }
        let invoice = Invoice {
            payment_id,
            wire,
            amount: request.amount,
            donor_name: copy_opt(&request.donor_name),
            recipient: copy_opt(&request.recipient),
            created_at: now,
            expires_at: now + INVOICE_TTL_SECONDS,
            state: InvoiceState::Pending,
            paid_at: None,
        };
        let ghost before = self@;
        self.sweep(now);
        proof {
            let id = invoice.payment_id@;
            if has_invoice(self@, id) {
                let j = invoice_index(self@, id);
                before.lemma_filter_contains_rev(|inv: Invoice| survives_sweep(inv, now), self@[j]);
            }
        }
        let snapshot = invoice.snapshot();
        proof {
            lemma_push_wf(self@, invoice);
        }
        self.entries.push(invoice);
        Ok(snapshot)
    }
}

} // verus!
