//! When the poller looks: the interval between two snapshots, and how often
//! within it the poller checks whether it was told to stop.

use vstd::prelude::*;

verus! {

/// The timing of a polling loop. Between two snapshots the loop naps
/// `checks` times, each nap one `checks`-th of the interval long, and looks
/// at the shutdown signal before each nap.
#[derive(Clone, Copy, Debug)]
pub struct Schedule {
    interval_millis: u64,
    checks: u32,
}

impl Schedule {
    #[verifier::type_invariant]
    spec fn checked(&self) -> bool {
        self.checks > 0
    }

    /// The time between two snapshots, in milliseconds.
    pub closed spec fn interval(&self) -> nat {
        self.interval_millis as nat
    }

    /// The number of naps between two snapshots.
    pub closed spec fn naps(&self) -> nat {
        self.checks as nat
    }

    /// Snapshots `interval_millis` apart, with `checks` naps between two of
    /// them. A schedule has at least one nap.
    pub fn new(interval_millis: u64, checks: u32) -> (r: Option<Schedule>)
        ensures
            r is Some <==> checks > 0,
            r matches Some(s) ==> s.interval() == interval_millis && s.naps() == checks,
    {
        if checks == 0 {
            None
        } else {
            Some(Schedule { interval_millis, checks })
        }
    }

    /// A snapshot every two seconds, and a look at the shutdown signal every
    /// twentieth of that.
    pub fn standard() -> (r: Schedule)
        ensures
            r.interval() == 2000,
            r.naps() == 20,
    {
        Schedule { interval_millis: 2000, checks: 20 }
    }

    /// The time between two snapshots, in milliseconds.
    pub fn interval_millis(&self) -> (r: u64)
        ensures
            r == self.interval(),
    {
        self.interval_millis
    }

    /// The number of naps between two snapshots.
    pub fn checks(&self) -> (r: u32)
        ensures
            r == self.naps(),
            r > 0,
    {
        proof {
            use_type_invariant(self);
        }
        self.checks
    }

    /// The length of one nap, in milliseconds: the longest time for which
    /// the loop does not look at the shutdown signal while it sleeps. It is
    /// the interval divided by the number of naps, rounded down, so an
    /// interval of fewer milliseconds than naps gives naps of no length.
    pub fn nap_millis(&self) -> (r: u64)
        ensures
            self.naps() > 0,
            r == self.interval() / self.naps(),
            r * self.naps() <= self.interval(),
    {
        proof {
            use_type_invariant(self);
            assert(self.interval_millis as nat / self.checks as nat * self.checks as nat
                <= self.interval_millis as nat) by (nonlinear_arith)
                requires
                    self.checks > 0,
            ;
        }
        self.interval_millis / (self.checks as u64)
    }
}

impl Default for Schedule {
    fn default() -> (r: Schedule)
        ensures
            r.interval() == 2000,
            r.naps() == 20,
    {
        Schedule::standard()
    }
}

} // verus!
