//! The payment-verification collaborator: an interface and a simulated implementation.
use vstd::prelude::*;

use crate::invoice::Invoice;

verus! {

/// The verifier could not give an answer (for instance, its node is unreachable).
#[derive(Clone, Copy, Debug, PartialEq, Eq, Structural)]
pub enum VerifierError {
    Unreachable,
}

/// Reports whether a payment has settled. It only answers; every change of
/// invoice or ledger state is made by the coordinator afterwards.
pub trait PaymentVerifier {
    fn is_settled(&self, payment_id: &String, invoice: &Invoice) -> Result<bool, VerifierError>;
}

/// A stand-in for a settlement network: a payment counts as settled once it
/// has been marked so.
pub struct SettlementSimulator {
    settled: Vec<String>,
}

impl View for SettlementSimulator {
    type V = Seq<Seq<char>>;

    closed spec fn view(&self) -> Seq<Seq<char>> {
        self.settled@.map_values(|s: String| s@)
    }
}

impl SettlementSimulator {
    /// A network on which nothing has settled.
    pub fn new() -> (r: SettlementSimulator)
        ensures
            r@ == Seq::<Seq<char>>::empty(),
    {
        SettlementSimulator { settled: Vec::new() }
    }

    /// Marks `payment_id` as settled.
    pub fn mark_settled(&mut self, payment_id: String)
        ensures
            final(self)@ == old(self)@.push(payment_id@),
    {
        self.settled.push(payment_id);
        assert(self@ =~= old(self)@.push(payment_id@));
    }

    /// Whether `payment_id` has been marked settled.
    pub fn knows_settled(&self, payment_id: &String) -> (r: bool)
        ensures
            r == self@.contains(payment_id@),
    {
        let mut i: usize = 0;
        while i < self.settled.len()
            invariant
                i <= self.settled@.len(),
                forall|k: int| 0 <= k < i ==> self.settled@[k]@ != payment_id@,
            decreases self.settled@.len() - i,
        {
            if self.settled[i] == *payment_id {
                assert(self@[i as int] == payment_id@);
                return true;
            }
            i += 1;
        }
        assert forall|k: int| 0 <= k < self@.len() implies self@[k] != payment_id@ by {
            assert(self@[k] == self.settled@[k]@);
        }
        false
    }
}

impl PaymentVerifier for SettlementSimulator {
    fn is_settled(&self, payment_id: &String, invoice: &Invoice) -> Result<bool, VerifierError> {
        Ok(self.knows_settled(payment_id))
    }
}

} // verus!
