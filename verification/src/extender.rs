//! How a held key is kept alive.

use std::sync::Arc;

use vstd::prelude::*;

use crate::error::Error;
use crate::gate::{Cancellation, Gate, Wake};
use crate::locker::Locker;
use crate::script::{write_extend_arg, Call};
use crate::time::{Span, Timestamp};

verus! {

/// The background task that keeps one key's TTL alive. It ends when the holder
/// gives the lock up, when the server says that our token is gone, or when a call
/// fails, and deletes the key on its way out.
pub struct Extender {
    key: String,
    token: String,
    gate: Arc<Gate>,
    cancel: Arc<Cancellation>,
}

/// What an [`Extender`] keeps alive.
#[verifier::ext_equal]
pub struct ExtenderView {
    pub key: Seq<char>,
    pub token: Seq<char>,
    pub gate: Arc<Gate>,
    pub cancel: Arc<Cancellation>,
}

impl View for Extender {
    type V = ExtenderView;

    closed spec fn view(&self) -> ExtenderView {
        ExtenderView {
            key: self.key@,
            token: self.token@,
            gate: self.gate,
            cancel: self.cancel,
        }
    }
}

/// What an extender's wait ended with. Where several are ready, the first counts.
#[derive(Clone, Copy, Debug, PartialEq, Eq, Structural)]
pub enum Wakeup {
    /// The holder's `lost` signal.
    Cancelled,
    /// The time to extend came.
    Tick,
    /// The `holder` signal of its gate: the key changed on the server.
    Invalidated,
}

/// What happened to an extender.
pub enum Event {
    /// Its wait ended, at the given time.
    Woken(Wakeup, Timestamp),
    /// The server replied to its extension.
    Extended(Result<i64, Error>),
    /// The server replied to its deletion, or the call failed.
    Deleted,
}

/// What an extender does next.
pub enum Action {
    /// Wait for the holder's `lost` signal, for the span to pass, or for the
    /// `holder` signal of its gate.
    Wait(Span),
    /// Make the call.
    Extend(Call),
    /// Give the signals, so that everyone knows before the wire is touched, then make
    /// the call as best-effort cleanup.
    Delete(Vec<Wake>, Call),
    /// Nothing: it is done.
    Stop,
}

/// The call that an extension made at `now` consists of. None where the deadline
/// cannot be written.
pub open spec fn extend_call(
    settings: crate::config::SettingsView,
    extender: ExtenderView,
    now: int,
) -> Option<crate::script::CallView> {
    match crate::script::extend_arg(settings.validity, now) {
        Some(arg) => Some(
            crate::script::CallView {
                script: settings.scripts.extend,
                key: extender.key,
                args: seq![extender.token, arg],
            },
        ),
        None => None,
    }
}

/// Whether the lock is still to be extended after a wait.
pub open spec fn goes_on(v: crate::state::LockerView, extender: ExtenderView, by: Wakeup) -> bool {
    by != Wakeup::Cancelled && v.live(extender.cancel.number())
}

/// The extender's last step: the acquisition is cancelled, and the key deleted if it
/// still is ours.
pub open spec fn ends(
    old: crate::state::LockerView,
    new: crate::state::LockerView,
    extender: ExtenderView,
    action: Action,
) -> bool {
    &&& new == old.cancelled(extender.cancel.number())
    &&& action matches Action::Delete(wakes, call)
    &&& wakes@ == old.cancel_wakes(extender.cancel)
    &&& call@ == crate::acquire::del_call(old.settings, extender.key, extender.token)
}

/// What an event comes to.
pub open spec fn reacts(
    old: crate::state::LockerView,
    new: crate::state::LockerView,
    extender: ExtenderView,
    event: Event,
    action: Action,
) -> bool {
    match event {
        Event::Woken(by, now) => match extend_call(old.settings, extender, now@) {
            Some(extension) if goes_on(old, extender, by) => {
                &&& new == old
                &&& action matches Action::Extend(call)
                &&& call@ == extension
            },
            _ => ends(old, new, extender, action),
        },
        Event::Extended(reply) => if reply matches Ok(n) && n == 1 {
            &&& new == old
            &&& action matches Action::Wait(span)
            &&& span@ == old.settings.extend_every
        } else {
            ends(old, new, extender, action)
        },
        Event::Deleted => new == old && action is Stop,
    }
}

impl Extender {
    /// The extender of an acquisition.
    pub(crate) fn new(
        key: String,
        token: String,
        gate: Arc<Gate>,
        cancel: Arc<Cancellation>,
    ) -> (extender: Self)
        ensures
            extender@ == (ExtenderView { key: key@, token: token@, gate, cancel }),
    {
        Extender { key, token, gate, cancel }
    }

    /// Its gate, whose `holder` signal it waits for.
    pub fn gate(&self) -> (gate: &Arc<Gate>)
        ensures
            *gate == self@.gate,
    {
        &self.gate
    }

    /// The acquisition whose `lost` signal it waits for.
    pub fn cancellation(&self) -> (cancel: &Arc<Cancellation>)
        ensures
            *cancel == self@.cancel,
    {
        &self.cancel
    }

    /// Cancels the acquisition and asks for the key to be deleted.
    fn end<C>(&self, locker: &mut Locker<C>) -> (action: Action)
        requires
            old(locker)@.wf(),
        ensures
            final(locker)@.wf(),
            final(locker).connection() == old(locker).connection(),
            ends(old(locker)@, final(locker)@, self@, action),
    {
        let wakes = locker.cancel(&self.cancel);
        let call = locker.delete(&self.key, &self.token);
        Action::Delete(wakes, call)
    }

    /// The first action.
    pub fn start<C>(&self, locker: &Locker<C>) -> (action: Action)
        ensures
            action matches Action::Wait(span) && span@ == locker@.settings.extend_every,
    {
        Action::Wait(locker.settings().extend_every)
    }

    /// The next action. The key is extended whatever ended the wait: a change on
    /// the server may be a takeover, and the extension finds out whether the key
    /// still is ours.
    pub fn step<C>(&self, locker: &mut Locker<C>, event: Event) -> (action: Action)
        requires
            old(locker)@.wf(),
            event matches Event::Woken(by, now) ==> (goes_on(old(locker)@, self@, by)
                ==> crate::time::in_range(now@ + old(locker)@.settings.validity)),
        ensures
            final(locker)@.wf(),
            final(locker).connection() == old(locker).connection(),
            reacts(old(locker)@, final(locker)@, self@, event, action),
    {
        match event {
            Event::Woken(by, now) => {
                if by == Wakeup::Cancelled || locker.is_cancelled(&self.cancel) {
                    return self.end(locker);
                }
                let settings = locker.settings();
                match write_extend_arg(settings.validity, now) {
                    Ok(arg) => {
                        let mut args: Vec<String> = Vec::new();
                        args.push(self.token.clone());
                        args.push(arg);
                        let call = Call {
                            script: settings.scripts.extend,
                            key: self.key.clone(),
                            args,
                        };
                        assert(call@.args =~= seq![self@.token, arg@]);
                        Action::Extend(call)
                    },
                    Err(_) => self.end(locker),
                }
            },
            Event::Extended(reply) => match reply {
                Ok(1) => Action::Wait(locker.settings().extend_every),
                _ => self.end(locker),
            },
            Event::Deleted => Action::Stop,
        }
    }
}

} // verus!
