//! The trial schedule: `warmups + repetitions` trials run in order, the
//! first `warmups` of them are discarded, and every later trial's throughput
//! is emitted. The controller hands out one ticket per trial and says whether
//! that trial is measured; it reaches its terminal state after the configured
//! count and then hands out nothing more.

use vstd::prelude::*;

verus! {

/// How many of the first `total` trial indices are measured, that is,
/// at or past `warmups`.
pub open spec fn measured_count(warmups: nat, total: nat) -> nat
    decreases total,
{
    if total == 0 {
        0
    } else {
        (measured_count(warmups, (total - 1) as nat) + if total - 1 >= warmups {
            1nat
        } else {
            0nat
        }) as nat
    }
}

/// Warmup exclusion: over `warmups + repetitions` trials, exactly
/// `repetitions` are measured — the warmups never are.
pub proof fn lemma_warmup_exclusion(warmups: nat, repetitions: nat)
    ensures
        measured_count(warmups, warmups + repetitions) == repetitions,
    decreases repetitions,
{
    if repetitions == 0 {
        lemma_no_measurement_during_warmup(warmups, warmups);
    } else {
        lemma_warmup_exclusion(warmups, (repetitions - 1) as nat);
    }
}

/// During warmup nothing is measured: over the first `total <= warmups`
/// trials, no throughput is emitted.
pub proof fn lemma_no_measurement_during_warmup(warmups: nat, total: nat)
    requires
        total <= warmups,
    ensures
        measured_count(warmups, total) == 0,
    decreases total,
{
    if total > 0 {
        lemma_no_measurement_during_warmup(warmups, (total - 1) as nat);
    }
}

/// One trial to run: its index in the run and whether its result is to be
/// emitted (`measured`) or discarded as warmup noise.
#[derive(Clone, Copy, Debug, PartialEq, Eq, Structural)]
pub struct Trial {
    pub index: u32,
    pub measured: bool,
}

/// Hands out the trials of one run, in order: `warmups + repetitions` of
/// them, the first `warmups` marked as not measured.
pub struct TrialController {
    warmups: u32,
    repetitions: u32,
    next_index: u32,
}

impl TrialController {
    /// All trials handed out so far stay within the configured count.
    pub closed spec fn wf(&self) -> bool {
        &&& self.warmups + self.repetitions <= u32::MAX
        &&& self.next_index <= self.warmups + self.repetitions
    }

    pub closed spec fn spec_warmups(&self) -> nat {
        self.warmups as nat
    }

    pub closed spec fn spec_repetitions(&self) -> nat {
        self.repetitions as nat
    }

    /// The total number of trials in the run.
    pub open spec fn spec_total(&self) -> nat {
        self.spec_warmups() + self.spec_repetitions()
    }

    /// The index of the next trial to hand out.
    pub closed spec fn spec_next_index(&self) -> nat {
        self.next_index as nat
    }

    /// The terminal state: every trial has been handed out.
    pub open spec fn done(&self) -> bool {
        self.spec_next_index() == self.spec_total()
    }

    /// A controller for a run of `warmups` discarded trials followed by
    /// `repetitions` measured ones.
    pub fn new(warmups: u32, repetitions: u32) -> (ctl: Self)
        requires
            warmups + repetitions <= u32::MAX,
        ensures
            ctl.wf(),
            ctl.spec_warmups() == warmups,
            ctl.spec_repetitions() == repetitions,
            ctl.spec_next_index() == 0,
    {
        TrialController { warmups, repetitions, next_index: 0 }
    }

    /// The next trial to run, or `None` once the run is over. A trial is
    /// measured exactly when its index is at or past the warmup count.
    pub fn next_trial(&mut self) -> (t: Option<Trial>)
        requires
            old(self).wf(),
        ensures
            final(self).wf(),
            final(self).spec_warmups() == old(self).spec_warmups(),
            final(self).spec_repetitions() == old(self).spec_repetitions(),
            old(self).done() ==> t is None && final(self).spec_next_index() == old(
                self,
            ).spec_next_index(),
            !old(self).done() ==> {
                &&& final(self).spec_next_index() == old(self).spec_next_index() + 1
                &&& t == Some(
                    Trial {
                        index: old(self).spec_next_index() as u32,
                        measured: old(self).spec_next_index() >= old(self).spec_warmups(),
                    },
                )
            },
    {
        if self.next_index < self.warmups + self.repetitions {
            let t = Trial { index: self.next_index, measured: self.next_index >= self.warmups };
            self.next_index = self.next_index + 1;
            Some(t)
        } else {
            None
        }
    }
}

/// Drive one whole run through the controller and count the measured trials:
/// exactly `repetitions` of them are, never the warmups.
pub fn count_measured_trials(warmups: u32, repetitions: u32) -> (n: u32)
    requires
        warmups + repetitions <= u32::MAX,
    ensures
        n == repetitions,
{
    let mut ctl = TrialController::new(warmups, repetitions);
    let mut n: u32 = 0;
    loop
        invariant
            ctl.wf(),
            ctl.spec_warmups() == warmups,
            ctl.spec_repetitions() == repetitions,
            n == measured_count(warmups as nat, ctl.spec_next_index()),
            n <= ctl.spec_next_index() <= warmups + repetitions,
        ensures
            ctl.done(),
            n == measured_count(warmups as nat, (warmups + repetitions) as nat),
        decreases (warmups + repetitions) as int - ctl.spec_next_index(),
    {
        let t = match ctl.next_trial() {
            Some(t) => t,
            None => { break ; },
        };
        if t.measured {
            n = n + 1;
        }
    }
    proof {
        lemma_warmup_exclusion(warmups as nat, repetitions as nat);
    }
    n
}

} // verus!
