//! Signals that were given.

use tokio::sync::Notify;
use vstd::prelude::*;

verus! {

/// A record of a signal that was given, which only giving it makes.
pub struct Given<'a> {
    signal: &'a Notify,
    everyone: bool,
}

impl<'a> Given<'a> {
    /// What was notified.
    pub closed spec fn signal(&self) -> Notify {
        *self.signal
    }

    /// Whether everyone who waited on it was, or else one, then or later.
    pub closed spec fn to_everyone(&self) -> bool {
        self.everyone
    }

    /// What was notified, and whether everyone who waited on it was.
    pub fn target(&self) -> (target: (&Notify, bool))
        ensures
            *target.0 == self.signal(),
            target.1 == self.to_everyone(),
    {
        (self.signal, self.everyone)
    }
}

/// Wakes one task that waits on a signal, now or later. What that task does then is not
/// stated.
pub fn tell_one<'a>(signal: &'a Notify) -> (given: Given<'a>)
    ensures
        given.signal() == *signal,
        !given.to_everyone(),
{
    signal.notify_one();
    Given { signal, everyone: false }
}

/// Wakes every task that waits on a signal now. What those tasks do then is not stated.
pub fn tell_everyone<'a>(signal: &'a Notify) -> (given: Given<'a>)
    ensures
        given.signal() == *signal,
        given.to_everyone(),
{
    signal.notify_waiters();
    Given { signal, everyone: true }
}

} // verus!
