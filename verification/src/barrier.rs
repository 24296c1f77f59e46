//! The countdown rendezvous: `N` parties each signal arrival, and none may
//! pass the rendezvous point until all `N` have arrived.
//!
//! This is the sequential model of the protocol: it records the party count
//! and the arrivals, and says exactly when waiters are released. The blocking
//! itself needs threads and therefore lives with the unverified driver, which
//! follows this model.

use vstd::prelude::*;

verus! {

/// With `parties` expected and `arrivals` recorded, are waiters released?
pub open spec fn barrier_released(parties: nat, arrivals: nat) -> bool {
    arrivals >= parties
}

/// A countdown barrier over `parties` parties that have each arrived or not.
pub struct CountdownBarrier {
    parties: u64,
    arrived: u64,
}

impl CountdownBarrier {
    /// The barrier counts a positive number of parties and never records
    /// more arrivals than parties.
    pub closed spec fn wf(&self) -> bool {
        &&& self.parties >= 1
        &&& self.arrived <= self.parties
    }

    pub closed spec fn spec_parties(&self) -> nat {
        self.parties as nat
    }

    pub closed spec fn spec_arrived(&self) -> nat {
        self.arrived as nat
    }

    pub closed spec fn spec_released(&self) -> bool {
        barrier_released(self.spec_parties(), self.spec_arrived())
    }

    /// A fresh barrier for `parties` parties, none of which has arrived.
    /// A zero party count is a programming error and is ruled out.
    pub fn new(parties: u64) -> (b: Self)
        requires
            parties >= 1,
        ensures
            b.wf(),
            b.spec_parties() == parties,
            b.spec_arrived() == 0,
            !b.spec_released(),
    {
        CountdownBarrier { parties, arrived: 0 }
    }

    /// Record one party's arrival. Never blocks. Arriving more than
    /// `parties` times is a programming error and is ruled out.
    pub fn arrive(&mut self)
        requires
            old(self).wf(),
            old(self).spec_arrived() < old(self).spec_parties(),
        ensures
            final(self).wf(),
            final(self).spec_parties() == old(self).spec_parties(),
            final(self).spec_arrived() == old(self).spec_arrived() + 1,
            final(self).spec_released() <==> final(self).spec_arrived() == final(self).spec_parties(),
    {
        self.arrived = self.arrived + 1;
    }

    /// Have all parties arrived, releasing every waiter?
    pub fn is_released(&self) -> (r: bool)
        requires
            self.wf(),
        ensures
            r == self.spec_released(),
            r <==> self.spec_arrived() == self.spec_parties(),
    {
        self.arrived == self.parties
    }

    /// The rendezvous point: a caller passes it only once the barrier is
    /// released, that is, only after all `parties` arrivals. A blocking
    /// implementation waits here instead; this model rules the early call out.
    pub fn await_release(&self)
        requires
            self.wf(),
            self.spec_released(),
    {
    }
}

/// No early release: with fewer arrivals than parties, no waiter is released.
pub proof fn lemma_no_early_release(parties: nat, arrivals: nat)
    requires
        arrivals < parties,
    ensures
        !barrier_released(parties, arrivals),
{
}

/// Release at the full count: the moment the number of arrivals reaches the
/// party count, every waiter is released.
pub proof fn lemma_release_at_full_count(parties: nat)
    ensures
        barrier_released(parties, parties),
{
}

} // verus!
