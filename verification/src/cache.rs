//! Process-scoped cache of reusable build artifacts, with an explicit
//! idle/active lifecycle bracketing each build: `end_idle` before the make
//! phase, `begin_idle` once `compile` returns, so maintenance runs only when
//! no build is in flight.

use vstd::prelude::*;

verus! {

/// Cache lifecycle state. Cached artifact storage itself belongs to the
/// resolver and parser collaborators; the core tracks the bracket.
#[derive(Debug, Clone, PartialEq, Eq)]
pub struct Cache {
    /// No build is in flight.
    pub idle: bool,
    /// Builds completed since construction.
    pub finished_builds: u64,
}

impl Cache {
    pub fn new() -> (r: Self)
        ensures
            r.idle,
            r.finished_builds == 0,
    {
        Cache { idle: true, finished_builds: 0 }
    }

    /// A build starts: leave the idle state.
    pub fn end_idle(&mut self)
        ensures
            !final(self).idle,
            final(self).finished_builds == old(self).finished_builds,
    {
        self.idle = false;
    }

    /// A build's compile phase is over: enter the idle state.
    pub fn begin_idle(&mut self)
        ensures
            final(self).idle,
            final(self).finished_builds == (if old(self).finished_builds < u64::MAX {
                (old(self).finished_builds + 1) as u64
            } else {
                old(self).finished_builds
            }),
    {
        self.idle = true;
        if self.finished_builds < u64::MAX {
            self.finished_builds = self.finished_builds + 1;
        }
    }
}

} // verus!
