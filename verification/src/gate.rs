//! The signals that tasks of one process wait on, and when they are given.

use std::sync::Arc;

use tokio::sync::Notify;
use vstd::prelude::*;

use crate::given::{tell_everyone, tell_one, Given};

verus! {

/// `tokio::sync::Notify`, which tasks wait on. What is pending on one changes
/// through shared references, so nothing is known of the inside of a value.
#[verifier::external_type_specification]
#[verifier::external_body]
pub struct ExNotify(tokio::sync::Notify);

/// `Notify::new`: a signal that nobody waits on and that holds no permit. The
/// contract says nothing of it.
pub assume_specification[ Notify::new ]() -> Notify
;

/// `Notify::notify_one`: wakes the first waiting task, or stores the one permit for
/// the next. The effect is on other tasks: the contract says nothing of it.
pub assume_specification[ Notify::notify_one ](notify: &Notify)
;

/// `Notify::notify_waiters`: wakes every waiting task and stores no permit. The
/// effect is on other tasks: the contract says nothing of it.
pub assume_specification[ Notify::notify_waiters ](notify: &Notify)
;

/// In-process coordination of everyone who cares about one lock name.
pub struct Gate {
    id: u64,
    free: Notify,
    holder: Notify,
}

impl Gate {
    /// The number that tells this gate from every other of its locker.
    pub closed spec fn number(&self) -> u64 {
        self.id
    }

    /// The signal that the lock may be free.
    pub closed spec fn free_signal(&self) -> Notify {
        self.free
    }

    /// The signal that the lock key changed on the server.
    pub closed spec fn holder_signal(&self) -> Notify {
        self.holder
    }

    /// A gate with the given number, and fresh signals.
    pub(crate) fn new(id: u64) -> (gate: Self)
        ensures
            gate.number() == id,
    {
        Gate { id, free: Notify::new(), holder: Notify::new() }
    }

    /// The number that tells this gate from every other of its locker.
    pub fn id(&self) -> (id: u64)
        ensures
            id == self.number(),
    {
        self.id
    }

    /// Given when the lock *might* be free: released by the local holder,
    /// invalidated by the server, or the locker was closed.
    pub fn free(&self) -> (signal: &Notify)
        ensures
            *signal == self.free_signal(),
    {
        &self.free
    }

    /// Given when the lock key was modified on the server. The holder's extender
    /// waits on it to react to takeovers at once.
    pub fn holder(&self) -> (signal: &Notify)
        ensures
            *signal == self.holder_signal(),
    {
        &self.holder
    }
}

/// The right to be told that one acquisition was lost or is to be given up.
pub struct Cancellation {
    id: u64,
    notify: Notify,
}

impl Cancellation {
    /// The number that tells this one from every other of its locker.
    pub closed spec fn number(&self) -> u64 {
        self.id
    }

    /// The signal that the lock is lost.
    pub closed spec fn lost_signal(&self) -> Notify {
        self.notify
    }

    /// A cancellation with the given number, and a fresh signal.
    pub(crate) fn new(id: u64) -> (cancel: Self)
        ensures
            cancel.number() == id,
    {
        Cancellation { id, notify: Notify::new() }
    }

    /// The number that tells this one from every other of its locker.
    pub fn id(&self) -> (id: u64)
        ensures
            id == self.number(),
    {
        self.id
    }

    /// Given once, when the lock is lost or given up.
    pub fn lost(&self) -> (signal: &Notify)
        ensures
            *signal == self.lost_signal(),
    {
        &self.notify
    }
}

/// A signal to give.
pub enum Wake {
    /// Wake one task that waits for the lock, now or later.
    Free(Arc<Gate>),
    /// Wake every task that waits for the lock now.
    FreeAll(Arc<Gate>),
    /// Wake the extender of the lock's holder, now or later.
    Holder(Arc<Gate>),
    /// Wake everyone who now waits for an acquisition to be lost.
    Lost(Arc<Cancellation>),
}

impl Wake {
    /// Whom the signal is for.
    pub open spec fn signal(&self) -> Notify {
        match self {
            Wake::Free(gate) => gate.free_signal(),
            Wake::FreeAll(gate) => gate.free_signal(),
            Wake::Holder(gate) => gate.holder_signal(),
            Wake::Lost(cancel) => cancel.lost_signal(),
        }
    }

    /// Whether the signal is for everyone who waits now, or else for one, now or later.
    pub open spec fn for_everyone(&self) -> bool {
        match self {
            Wake::Free(_) => false,
            Wake::FreeAll(_) => true,
            Wake::Holder(_) => false,
            Wake::Lost(_) => true,
        }
    }

    /// What is to be notified, and whether everyone who waits on it is.
    pub fn target(&self) -> (target: (&Notify, bool))
        ensures
            *target.0 == self.signal(),
            target.1 == self.for_everyone(),
    {
        match self {
            Wake::Free(gate) => (gate.free(), false),
            Wake::FreeAll(gate) => (gate.free(), true),
            Wake::Holder(gate) => (gate.holder(), false),
            Wake::Lost(cancel) => (cancel.lost(), true),
        }
    }

    /// Gives the signal. What the tasks that wait on it do then is not stated.
    pub fn deliver(&self) -> (given: Given<'_>)
        ensures
            given.signal() == self.signal(),
            given.to_everyone() == self.for_everyone(),
    {
        let (signal, everyone) = self.target();
        if everyone {
            tell_everyone(signal)
        } else {
            tell_one(signal)
        }
    }
}

/// Gives the signals in order, and says which were given.
pub fn deliver_each(wakes: &Vec<Wake>) -> (given: Vec<Given<'_>>)
    ensures
        given@.len() == wakes@.len(),
        forall|i: int|
            0 <= i < wakes@.len() ==> {
                &&& (#[trigger] given@[i]).signal() == wakes@[i].signal()
                &&& given@[i].to_everyone() == wakes@[i].for_everyone()
            },
{
    let mut given: Vec<Given<'_>> = Vec::new();
    let mut i: usize = 0;
    while i < wakes.len()
        invariant
            i <= wakes@.len(),
            given@.len() == i,
            forall|j: int|
                0 <= j < i ==> {
                    &&& (#[trigger] given@[j]).signal() == wakes@[j].signal()
                    &&& given@[j].to_everyone() == wakes@[j].for_everyone()
                },
        decreases wakes@.len() - i,
    {
        given.push(wakes[i].deliver());
        i += 1;
    }
    given
}

/// Gives the signals in order. What the tasks that wait on them do then is not stated.
pub fn deliver_all(wakes: &Vec<Wake>) {
    let _ = deliver_each(wakes);
}

/// A gate's two signals are told apart: who waits for the lock and who holds it are
/// woken by different ones.
proof fn gate_keeps_its_signals_apart(
    id: u64,
    free: Notify,
    holder: Notify,
    number: u64,
    to_waiters: &Notify,
    to_holder: &Notify,
)
    requires
        call_ensures(Gate::id, (&(Gate { id, free, holder }),), number),
        call_ensures(Gate::free, (&(Gate { id, free, holder }),), to_waiters),
        call_ensures(Gate::holder, (&(Gate { id, free, holder }),), to_holder),
    ensures
        number == id,
        *to_waiters == free,
        *to_holder == holder,
{
}

/// An acquisition is told of its loss by the one signal it was made with.
proof fn cancellation_keeps_its_signal(id: u64, notify: Notify, number: u64, told: &Notify)
    requires
        call_ensures(Cancellation::id, (&(Cancellation { id, notify }),), number),
        call_ensures(Cancellation::lost, (&(Cancellation { id, notify }),), told),
    ensures
        number == id,
        *told == notify,
{
}

/// Everyone who watches an acquisition is told of its loss, not just one of them, and
/// everyone who waits for a lock when all are to be woken. When a lock may be free, one
/// waiter is woken, and its holder's extender is told by a signal of its own.
pub proof fn losses_are_told_to_everyone(
    gate: Arc<Gate>,
    cancel: Arc<Cancellation>,
    free: (&Notify, bool),
    free_all: (&Notify, bool),
    holder: (&Notify, bool),
    lost: (&Notify, bool),
    waiters: &Notify,
    holders: &Notify,
    watchers: &Notify,
)
    requires
        call_ensures(Wake::target, (&Wake::Free(gate),), free),
        call_ensures(Wake::target, (&Wake::FreeAll(gate),), free_all),
        call_ensures(Wake::target, (&Wake::Holder(gate),), holder),
        call_ensures(Wake::target, (&Wake::Lost(cancel),), lost),
        call_ensures(Gate::free, (&*gate,), waiters),
        call_ensures(Gate::holder, (&*gate,), holders),
        call_ensures(Cancellation::lost, (&*cancel,), watchers),
    ensures
        *free.0 == *waiters && !free.1,
        *free_all.0 == *waiters && free_all.1,
        *holder.0 == *holders && !holder.1,
        *lost.0 == *watchers && lost.1,
{
}

/// A signal is given to those it is for: a loss to everyone who watches the acquisition, and
/// likewise the others.
pub proof fn signals_are_given_as_meant<'a>(
    gate: Arc<Gate>,
    cancel: Arc<Cancellation>,
    free: Given<'a>,
    free_all: Given<'a>,
    holder: Given<'a>,
    lost: Given<'a>,
    waiters: &Notify,
    holders: &Notify,
    watchers: &Notify,
)
    requires
        call_ensures(Wake::deliver, (&Wake::Free(gate),), free),
        call_ensures(Wake::deliver, (&Wake::FreeAll(gate),), free_all),
        call_ensures(Wake::deliver, (&Wake::Holder(gate),), holder),
        call_ensures(Wake::deliver, (&Wake::Lost(cancel),), lost),
        call_ensures(Gate::free, (&*gate,), waiters),
        call_ensures(Gate::holder, (&*gate,), holders),
        call_ensures(Cancellation::lost, (&*cancel,), watchers),
    ensures
        free.signal() == *waiters && !free.to_everyone(),
        free_all.signal() == *waiters && free_all.to_everyone(),
        holder.signal() == *holders && !holder.to_everyone(),
        lost.signal() == *watchers && lost.to_everyone(),
{
}

/// Every signal in a row is given, in its place and as it would be alone.
pub proof fn rows_of_signals_are_given_in_order<'a>(
    wakes: &'a Vec<Wake>,
    given: Vec<Given<'a>>,
    at: int,
    alone: Given<'a>,
)
    requires
        call_ensures(deliver_each, (wakes,), given),
        0 <= at < wakes@.len(),
        call_ensures(Wake::deliver, (&wakes@[at],), alone),
    ensures
        given@.len() == wakes@.len(),
        given@[at].signal() == alone.signal(),
        given@[at].to_everyone() == alone.to_everyone(),
{
}

} // verus!
