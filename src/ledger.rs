//! The append-only ledger of settled donations.
use vstd::prelude::*;

use crate::invoice::copy_opt;

verus! {

/// A settled donation. Timestamps are seconds since the Unix epoch.
#[derive(Debug)]
pub struct Donation {
    /// Record identifier, distinct from the payment identifier.
    pub id: String,
    pub donor_name: String,
    pub recipient: Option<String>,
    pub amount: u64,
    /// The identifier of the invoice this donation settled.
    pub payment_id: String,
    pub paid_at: i64,
}

/// Aggregate figures over the whole ledger.
#[derive(Clone, Copy, Debug, PartialEq, Eq, Structural)]
pub struct DonationStats {
    pub total_amount: u128,
    pub donor_count: usize,
}

impl Donation {
    /// A copy equal to `self`.
    pub fn snapshot(&self) -> (r: Donation)
        ensures
            r == *self,
    {
        Donation {
            id: self.id.clone(),
            donor_name: self.donor_name.clone(),
            recipient: copy_opt(&self.recipient),
            amount: self.amount,
            payment_id: self.payment_id.clone(),
            paid_at: self.paid_at,
        }
    }
}

/// Whether some donation of `s` settled payment `id`.
pub open spec fn has_donation(s: Seq<Donation>, id: Seq<char>) -> bool {
    exists|i: int| 0 <= i < s.len() && s[i].payment_id@ == id
}

/// The position of the donation for payment `id` (meaningful when there is one).
pub open spec fn donation_index(s: Seq<Donation>, id: Seq<char>) -> int {
    choose|i: int| 0 <= i < s.len() && s[i].payment_id@ == id
}

/// The donation for payment `id` (meaningful when there is one).
pub open spec fn donation_for(s: Seq<Donation>, id: Seq<char>) -> Donation {
    s[donation_index(s, id)]
}

/// A payment identifier appears at most once.
pub open spec fn ledger_wf(s: Seq<Donation>) -> bool {
    forall|i: int, j: int|
        0 <= i < s.len() && 0 <= j < s.len() && s[i].payment_id@ == s[j].payment_id@ ==> i == j
}

/// The sum of all amounts.
pub open spec fn total_of(s: Seq<Donation>) -> int
    decreases s.len(),
{
    if s.len() == 0 {
        0
    } else {
        total_of(s.drop_last()) + s.last().amount
    }
}

/// The last `n` donations, newest first.
pub open spec fn recent_of(s: Seq<Donation>, n: nat) -> Seq<Donation> {
    let k = if n < s.len() {
        n
    } else {
        s.len()
    };
    Seq::new(k, |i: int| s[s.len() - 1 - i])
}

/// With unique payment identifiers, the donation found for `id` is the one at `i`.
pub proof fn lemma_donation_index(s: Seq<Donation>, id: Seq<char>, i: int)
    requires
        ledger_wf(s),
        0 <= i < s.len(),
        s[i].payment_id@ == id,
    ensures
        has_donation(s, id),
        donation_index(s, id) == i,
        donation_for(s, id) == s[i],
{
    let j = donation_index(s, id);
    assert(0 <= j < s.len() && s[j].payment_id@ == id);
}

/// Appending a donation for a payment not yet recorded keeps identifiers unique.
pub proof fn lemma_append_wf(s: Seq<Donation>, d: Donation)
    requires
        ledger_wf(s),
        !has_donation(s, d.payment_id@),
    ensures
        ledger_wf(s.push(d)),
        has_donation(s.push(d), d.payment_id@),
        donation_for(s.push(d), d.payment_id@) == d,
        forall|id: Seq<char>| #[trigger]
            has_donation(s, id) ==> has_donation(s.push(d), id) && donation_for(s.push(d), id)
                == donation_for(s, id),
{
    let t = s.push(d);
    assert forall|a: int, b: int|
        0 <= a < t.len() && 0 <= b < t.len() && t[a].payment_id@ == t[b].payment_id@ implies a
        == b by {
        if a < s.len() && b == s.len() {
            assert(t[a] == s[a]);
        }
        if b < s.len() && a == s.len() {
            assert(t[b] == s[b]);
        }
    }
    lemma_donation_index(t, d.payment_id@, s.len() as int);
    assert forall|id: Seq<char>| #[trigger] has_donation(s, id) implies has_donation(t, id)
        && donation_for(t, id) == donation_for(s, id) by {
        let j = donation_index(s, id);
        assert(t[j] == s[j]);
        lemma_donation_index(t, id, j);
    }
}

/// Settled donations in the order they were recorded, at most one per payment.
pub struct DonationLedger {
    entries: Vec<Donation>,
}

impl View for DonationLedger {
    type V = Seq<Donation>;

    closed spec fn view(&self) -> Seq<Donation> {
        self.entries@
    }
}

impl DonationLedger {
    pub open spec fn wf(&self) -> bool {
        ledger_wf(self@)
    }

    /// An empty ledger.
    pub fn new() -> (r: DonationLedger)
        ensures
            r@ == Seq::<Donation>::empty(),
            r.wf(),
    {
        DonationLedger { entries: Vec::new() }
    }

    /// Number of donations recorded.
    pub fn len(&self) -> (r: usize)
        ensures
            r == self@.len(),
    {
        self.entries.len()
    }

    fn position(&self, payment_id: &String) -> (r: Option<usize>)
        requires
            self.wf(),
        ensures
            r is None <==> !has_donation(self@, payment_id@),
            r matches Some(i) ==> i < self@.len() && i == donation_index(self@, payment_id@)
                && self@[i as int].payment_id@ == payment_id@,
    {
        let mut i: usize = 0;
        while i < self.entries.len()
            invariant
                ledger_wf(self@),
                i <= self.entries@.len(),
                forall|k: int| 0 <= k < i ==> self.entries@[k].payment_id@ != payment_id@,
            decreases self.entries@.len() - i,
        {
            if self.entries[i].payment_id == *payment_id {
                proof {
                    lemma_donation_index(self@, payment_id@, i as int);
                }
                return Some(i);
            }
            i += 1;
        }
        None
    }

    /// Whether payment `payment_id` has been recorded.
    pub fn contains(&self, payment_id: &String) -> (r: bool)
        requires
            self.wf(),
        ensures
            r == has_donation(self@, payment_id@),
    {
        self.position(payment_id).is_some()
    }

    /// The donation recorded for payment `payment_id`, if any.
    pub fn find(&self, payment_id: &String) -> (r: Option<Donation>)
        requires
            self.wf(),
        ensures
            r is None <==> !has_donation(self@, payment_id@),
            r matches Some(d) ==> d == donation_for(self@, payment_id@),
    {
        match self.position(payment_id) {
            Some(i) => Some(self.entries[i].snapshot()),
            None => None,
        }
    }

    /// Records `donation` unless its payment is already recorded; reports
    /// whether it was added.
    pub fn append(&mut self, donation: Donation) -> (r: bool)
        requires
            old(self).wf(),
        ensures
            final(self).wf(),
            r == !has_donation(old(self)@, donation.payment_id@),
            r ==> final(self)@ == old(self)@.push(donation),
            !r ==> final(self)@ == old(self)@,
    {
        if self.contains(&donation.payment_id) {
            false
        } else {
            proof {
                lemma_append_wf(self@, donation);
            }
            self.entries.push(donation);
            true
        }
    }

    /// The sum of all amounts and the number of donations.
    pub fn stats(&self) -> (r: DonationStats)
        ensures
            r.total_amount == total_of(self@),
            r.donor_count == self@.len(),
    {
        let ghost s = self@;
        let mut total: u128 = 0;
        let mut i: usize = 0;
        while i < self.entries.len()
            invariant
                s == self@,
                i <= s.len(),
                total == total_of(s.take(i as int)),
                total <= i * 18446744073709551615u128,
            decreases s.len() - i,
        {
            assert(s.take(i as int + 1).drop_last() =~= s.take(i as int));
            total = total + self.entries[i].amount as u128;
            i += 1;
        }
        assert(s.take(s.len() as int) =~= s);
        DonationStats { total_amount: total, donor_count: self.entries.len() }
    }

    /// The last `n` donations, newest first.
    pub fn recent(&self, n: usize) -> (r: Vec<Donation>)
        ensures
            r@ == recent_of(self@, n as nat),
    {
        let ghost s = self@;
        let len = self.entries.len();
        let k = if n < len {
            n
        } else {
            len
        };
        let mut out: Vec<Donation> = Vec::new();
        let mut i: usize = 0;
        while i < k
            invariant
                s == self@,
                len == s.len(),
                k <= len,
                i <= k,
                out@.len() == i,
                forall|j: int| 0 <= j < i ==> out@[j] == s[s.len() - 1 - j],
            decreases k - i,
        {
            out.push(self.entries[len - 1 - i].snapshot());
            i += 1;
        }
        assert(out@ =~= recent_of(s, n as nat));
        out
    }
}

} // verus!
