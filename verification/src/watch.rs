//! Watch-mode state: the loop that re-runs the conversion pass on a fixed
//! interval has no terminal state of its own — it is cancelled only from
//! outside — and its sole state is the count of completed passes.

use vstd::prelude::*;

verus! {

/// The watch loop's process-local state.
#[derive(Clone, Copy, Debug, PartialEq, Eq, Structural)]
pub struct WatchState {
    /// Passes completed so far.
    pub iterations: u64,
}

impl WatchState {
    /// A fresh watch loop has completed no pass.
    pub fn new() -> (s: WatchState)
        ensures
            s.iterations == 0,
    {
        WatchState { iterations: 0 }
    }

    /// One pass over the directory has finished, successfully or not: the
    /// loop's only transition. An erring pass is reported and counted, and
    /// never ends the loop.
    pub fn completed_pass(&mut self)
        requires
            old(self).iterations < u64::MAX,
        ensures
            final(self).iterations == old(self).iterations + 1,
    {
        self.iterations = self.iterations + 1;
    }
}

} // verus!
