//! Held locks.

use std::sync::Arc;

use vstd::prelude::*;

use crate::gate::{Cancellation, Gate, Wake};
use crate::locker::Locker;

verus! {

/// A held lock. It remains valid until it is lost or given up.
pub struct LockGuard {
    name: String,
    key: String,
    token: String,
    gate: Arc<Gate>,
    cancel: Arc<Cancellation>,
}

/// What a [`LockGuard`] stands for.
#[verifier::ext_equal]
pub struct GuardView {
    pub name: Seq<char>,
    pub key: Seq<char>,
    pub token: Seq<char>,
    pub gate: Arc<Gate>,
    pub cancel: Arc<Cancellation>,
}

impl View for LockGuard {
    type V = GuardView;

    closed spec fn view(&self) -> GuardView {
        GuardView {
            name: self.name@,
            key: self.key@,
            token: self.token@,
            gate: self.gate,
            cancel: self.cancel,
        }
    }
}

impl LockGuard {
    /// The guard of an acquisition.
    pub(crate) fn new(
        name: String,
        key: String,
        token: String,
        gate: Arc<Gate>,
        cancel: Arc<Cancellation>,
    ) -> (guard: Self)
        ensures
            guard@ == (GuardView { name: name@, key: key@, token: token@, gate, cancel }),
    {
        LockGuard { name, key, token, gate, cancel }
    }

    /// The Redis key the lock is held under.
    pub fn key(&self) -> (key: &str)
        ensures
            key@ == self@.key,
    {
        self.key.as_str()
    }

    /// The unique token written under the lock key. Useful for tracing.
    pub fn token(&self) -> (token: &str)
        ensures
            token@ == self@.token,
    {
        self.token.as_str()
    }

    /// Whether the lock was lost or given up.
    pub fn is_lost<C>(&self, locker: &Locker<C>) -> (lost: bool)
        ensures
            lost == !locker@.live(self@.cancel.number()),
    {
        locker.is_cancelled(&self.cancel)
    }

    /// What to wait for until the lock is lost or given up: None once it is. Whoever
    /// waits subscribes to the [`lost`](Cancellation::lost) signal and asks again
    /// before waiting, so that a cancellation in between is not missed.
    pub fn cancelled<C>(&self, locker: &Locker<C>) -> (awaited: Option<Arc<Cancellation>>)
        ensures
            match awaited {
                Some(awaited) => locker@.live(self@.cancel.number()) && awaited == self@.cancel,
                None => !locker@.live(self@.cancel.number()),
            },
    {
        if locker.is_cancelled(&self.cancel) {
            None
        } else {
            Some(self.cancel.clone())
        }
    }

    /// Gives the lock up: tells the extender to exit, which deletes the key, and no
    /// longer counts as outstanding. Its gate is kept until [`retire`](LockGuard::retire).
    pub fn release<C>(&self, locker: &mut Locker<C>) -> (wakes: Vec<Wake>)
        requires
            old(locker)@.wf(),
        ensures
            final(locker)@.wf(),
            final(locker).connection() == old(locker).connection(),
            final(locker)@ == old(locker)@.released(self@.cancel.number()),
            wakes@ == old(locker)@.cancel_wakes(self@.cancel),
    {
        let wakes = locker.cancel(&self.cancel);
        locker.deregister_outstanding(&self.cancel);
        wakes
    }

    /// Ends the guard: gives the lock up if that was not done, then wakes local waiters
    /// and gives up its gate.
    pub fn retire<C>(self, locker: &mut Locker<C>) -> (wakes: Vec<Wake>)
        requires
            old(locker)@.wf(),
        ensures
            final(locker)@.wf(),
            final(locker).connection() == old(locker).connection(),
            final(locker)@ == old(locker)@.released(self@.cancel.number()).left(
                self@.name,
                &*self@.gate,
            ),
            wakes@ == old(locker)@.cancel_wakes(self@.cancel) + old(locker)@.gate_wakes(
                self@.name,
            ),
    {
        let mut wakes = self.release(locker);
        let mut woken = locker.notify_gate(self.name.as_str());
        wakes.append(&mut woken);
        locker.drop_gate(self.name.as_str(), &self.gate);
        wakes
    }
}

} // verus!
