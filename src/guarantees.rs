//! Laws of the lifecycle, stated over the books' model and proved from the
//! coordinator's step relation.
use vstd::prelude::*;

use crate::coordinator::{books_wf, poll_step, Books, PaymentStatus};
use crate::ledger::{
    donation_for, donation_index, has_donation, lemma_append_wf, ledger_wf, Donation,
};
use crate::store::{has_invoice, invoice_for, invoice_index, lemma_remove_wf};

verus! {

/// Exactly one donation of `l` settled payment `id`.
pub open spec fn recorded_once(l: Seq<Donation>, id: Seq<char>) -> bool {
    exists|i: int|
        0 <= i < l.len() && l[i].payment_id@ == id && forall|j: int|
            0 <= j < l.len() && #[trigger] l[j].payment_id@ == id ==> j == i
}

/// `books` is a run of status queries for `id`: query `k` happens at
/// `times[k]` with verdict `verdicts[k]`, reports `statuses[k]`, and takes
/// `books[k]` to `books[k + 1]`.
pub open spec fn query_run(
    books: Seq<Books>,
    id: Seq<char>,
    times: Seq<i64>,
    verdicts: Seq<bool>,
    statuses: Seq<PaymentStatus>,
) -> bool {
    &&& books.len() == times.len() + 1
    &&& verdicts.len() == times.len()
    &&& statuses.len() == times.len()
    &&& forall|k: int|
        0 <= k < times.len() ==> poll_step(
            books[k],
            id,
            times[k],
            verdicts[k],
            books[k + 1],
            #[trigger] statuses[k],
        )
}

proof fn lemma_recorded_once(l: Seq<Donation>, id: Seq<char>)
    requires
        ledger_wf(l),
        has_donation(l, id),
    ensures
        recorded_once(l, id),
{
    let i = donation_index(l, id);
    assert(0 <= i < l.len() && l[i].payment_id@ == id);
}

proof fn lemma_stable_prefix(
    books: Seq<Books>,
    id: Seq<char>,
    times: Seq<i64>,
    verdicts: Seq<bool>,
    statuses: Seq<PaymentStatus>,
    n: int,
)
    requires
        query_run(books, id, times, verdicts, statuses),
        has_donation(books[0].1, id),
        0 <= n < books.len(),
    ensures
        forall|k: int| 0 <= k <= n ==> #[trigger] books[k] == books[0],
        forall|k: int|
            0 <= k < n ==> statuses[k] == PaymentStatus::Paid(donation_for(books[0].1, id).paid_at),
    decreases n,
{
    if n > 0 {
        lemma_stable_prefix(books, id, times, verdicts, statuses, n - 1);
        assert(poll_step(books[n - 1], id, times[n - 1], verdicts[n - 1], books[n], statuses[n - 1]));
        assert(books[n].0 == books[0].0);
        assert(books[n].1 == books[0].1);
    }
}

/// An unknown identifier (held nowhere, recorded nowhere) is reported
/// NotFound, and the query changes nothing.
pub proof fn lemma_unknown_is_not_found(
    pre: Books,
    id: Seq<char>,
    now: i64,
    settled: bool,
    post: Books,
    status: PaymentStatus,
)
    requires
        books_wf(pre),
        !has_invoice(pre.0, id),
        !has_donation(pre.1, id),
        poll_step(pre, id, now, settled, post, status),
    ensures
        status == PaymentStatus::NotFound,
        post == pre,
{
}

/// Once a payment is recorded, any number of further queries or
/// confirmations, with any verdicts and at any times, change nothing and all
/// report Paid with the recorded time; the ledger keeps exactly one record of it.
pub proof fn lemma_paid_is_idempotent(
    books: Seq<Books>,
    id: Seq<char>,
    times: Seq<i64>,
    verdicts: Seq<bool>,
    statuses: Seq<PaymentStatus>,
)
    requires
        books_wf(books[0]),
        has_donation(books[0].1, id),
        query_run(books, id, times, verdicts, statuses),
    ensures
        forall|k: int| 0 <= k < books.len() ==> #[trigger] books[k] == books[0],
        forall|k: int|
            0 <= k < statuses.len() ==> statuses[k] == PaymentStatus::Paid(
                donation_for(books[0].1, id).paid_at,
            ),
        recorded_once(books.last().1, id),
{
    lemma_stable_prefix(books, id, times, verdicts, statuses, books.len() - 1);
    lemma_recorded_once(books[0].1, id);
}

/// A held, unrecorded invoice queried at or after its expiry is reported
/// Expired and leaves the store, with the ledger untouched; a later query
/// reports NotFound and changes nothing.
pub proof fn lemma_expiry_is_final(
    pre: Books,
    id: Seq<char>,
    now: i64,
    settled: bool,
    mid: Books,
    status: PaymentStatus,
    later: i64,
    settled_later: bool,
    post: Books,
    status_later: PaymentStatus,
)
    requires
        books_wf(pre),
        has_invoice(pre.0, id),
        !has_donation(pre.1, id),
        invoice_for(pre.0, id).expires_at <= now,
        poll_step(pre, id, now, settled, mid, status),
        poll_step(mid, id, later, settled_later, post, status_later),
    ensures
        status == PaymentStatus::Expired,
        !has_invoice(mid.0, id),
        mid.1 == pre.1,
        status_later == PaymentStatus::NotFound,
        post == mid,
{
    lemma_remove_wf(pre.0, invoice_index(pre.0, id));
}

/// Any number (at least one) of confirmations of a held invoice, the first
/// before its expiry, record the payment exactly once, leave no invoice for it
/// in the store, and all report Paid at the first confirmation's time.
pub proof fn lemma_confirmations_record_once(
    books: Seq<Books>,
    id: Seq<char>,
    times: Seq<i64>,
    statuses: Seq<PaymentStatus>,
)
    requires
        books_wf(books[0]),
        times.len() >= 1,
        has_invoice(books[0].0, id),
        !has_donation(books[0].1, id),
        times[0] < invoice_for(books[0].0, id).expires_at,
        query_run(books, id, times, Seq::new(times.len(), |k: int| true), statuses),
    ensures
        recorded_once(books.last().1, id),
        !has_invoice(books.last().0, id),
        forall|k: int| 0 <= k < statuses.len() ==> statuses[k] == PaymentStatus::Paid(times[0]),
{
    let verdicts = Seq::new(times.len(), |k: int| true);
    let pre = books[0];
    assert(poll_step(books[0], id, times[0], verdicts[0], books[1], statuses[0]));
    let inv = invoice_for(pre.0, id);
    let i = invoice_index(pre.0, id);
    assert(0 <= i < pre.0.len() && pre.0[i].payment_id@ == id);
    lemma_remove_wf(pre.0, i);
    let d = books[1].1.last();
    assert(books[1].1 == pre.1.push(d));
    lemma_append_wf(pre.1, d);
    let rest = books.drop_first();
    let rest_times = times.drop_first();
    let rest_verdicts = verdicts.drop_first();
    let rest_statuses = statuses.drop_first();
    assert forall|k: int| 0 <= k < rest_times.len() implies poll_step(
        rest[k],
        id,
        rest_times[k],
        rest_verdicts[k],
        rest[k + 1],
        #[trigger] rest_statuses[k],
    ) by {
        assert(poll_step(
            books[k + 1],
            id,
            times[k + 1],
            verdicts[k + 1],
            books[k + 2],
            statuses[k + 1],
        ));
    }
    assert(donation_for(books[1].1, id) == d);
    lemma_stable_prefix(rest, id, rest_times, rest_verdicts, rest_statuses, rest.len() - 1);
    assert(books.last() == rest.last());
    assert(rest.last() == rest[0]);
    lemma_recorded_once(books[1].1, id);
    assert forall|k: int| 0 <= k < statuses.len() implies statuses[k] == PaymentStatus::Paid(
        times[0],
    ) by {
        if k > 0 {
            assert(statuses[k] == rest_statuses[k - 1]);
        }
    }
}

} // verus!
