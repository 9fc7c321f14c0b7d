//! The guard of an inner service: exclusive access, one call at a time.
//!
//! The guard records which call holds the inner service. It decides whether
//! a call may proceed; making a call wait, and waking it, is the runtime's
//! part. Calls are told apart by a number that the runtime gives each.

use vstd::prelude::*;

verus! {

/// Whether a guard with this holder is granted to a call that asks for it:
/// only a guard that nobody holds is.
pub open spec fn grants(holder: Option<u64>) -> bool {
    holder is None
}

/// The holder of a guard after `caller` has asked for it.
pub open spec fn after_acquire(holder: Option<u64>, caller: u64) -> Option<u64> {
    if grants(holder) {
        Some(caller)
    } else {
        holder
    }
}

/// The holder of a guard after `caller` has given it back. Only the holder
/// can give the guard back.
pub open spec fn after_release(holder: Option<u64>, caller: u64) -> Option<u64> {
    if holder == Some(caller) {
        None
    } else {
        holder
    }
}

/// Exclusive access to an inner service.
#[derive(Debug)]
pub struct Guard {
    holder: Option<u64>,
}

impl Guard {
    /// The call that holds the guard, if any.
    pub closed spec fn spec_holder(&self) -> Option<u64> {
        self.holder
    }

    /// The call that holds the guard, if any.
    #[verifier::when_used_as_spec(spec_holder)]
    pub fn holder(&self) -> (holder: Option<u64>)
        ensures
            holder == self.spec_holder(),
    {
        self.holder
    }

    /// A guard that nobody holds.
    pub fn new() -> (guard: Self)
        ensures
            guard.holder() is None,
    {
        Guard { holder: None }
    }

    /// Asks for the guard on behalf of `caller`. The guard is granted if and
    /// only if nobody holds it; otherwise nothing changes and the caller has
    /// to wait.
    pub fn acquire(&mut self, caller: u64) -> (granted: bool)
        ensures
            granted == grants(old(self).holder()),
            final(self).holder() == after_acquire(old(self).holder(), caller),
    {
        match self.holder {
            None => {
                self.holder = Some(caller);
                true
            },
            Some(_) => false,
        }
    }

    /// Gives the guard back on behalf of `caller`. Returns whether `caller`
    /// held it; a call that does not hold the guard changes nothing.
    pub fn release(&mut self, caller: u64) -> (released: bool)
        ensures
            released == (old(self).holder() == Some(caller)),
            final(self).holder() == after_release(old(self).holder(), caller),
    {
        match self.holder {
            Some(holder) => {
                if holder == caller {
                    self.holder = None;
                    true
                } else {
                    false
                }
            },
            None => false,
        }
    }
}

} // verus!
