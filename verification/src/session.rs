//! The session counter: a process-wide number bumped whenever the caller's
//! identity is (re)established. Purely an observability signal; download
//! validity is decided by the key registry alone.

use vstd::prelude::*;

verus! {

/// Monotonically increasing identifier of the current user session.
pub struct SessionCounter {
    id: u64,
}

impl SessionCounter {
    /// The current session number.
    pub closed spec fn current(self) -> u64 {
        self.id
    }

    /// A counter starting at zero.
    pub fn new() -> (r: SessionCounter)
        ensures
            r.current() == 0,
    {
        SessionCounter { id: 0 }
    }

    /// Called when the caller's identity is queried anew: bumps the counter
    /// and returns the fresh session number.
    pub fn refresh(&mut self) -> (r: u64)
        requires
            old(self).current() < u64::MAX,
        ensures
            final(self).current() == old(self).current() + 1,
            r == final(self).current(),
    {
        self.id = self.id + 1;
        self.id
    }

    /// Reads the current session number without changing it.
    pub fn get_session_id(&self) -> (r: u64)
        ensures
            r == self.current(),
    {
        self.id
    }
}

} // verus!
