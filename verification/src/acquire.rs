//! How a lock is acquired: from the request to the guard, one step at a time.

use std::sync::Arc;

use vstd::prelude::*;

use crate::error::{locker_closed, not_locked, Error, ErrorKind};
use crate::extender::Extender;
use crate::gate::Gate;
use crate::guard::LockGuard;
use crate::key::keyname;
use crate::locker::Locker;
use crate::script::{write_acquire_arg, Call};
use crate::time::{Span, Timestamp};
use crate::token::random_token;

verus! {

/// What an acquirer wants when the lock is held.
#[derive(Clone, Copy, Debug, PartialEq, Eq, Structural)]
pub enum Mode {
    /// To wait until it is free.
    Wait,
    /// To be told.
    Try,
    /// To take it over.
    Force,
}

/// One attempt to acquire a lock. It uses the lock's gate until it ends.
pub struct Attempt {
    mode: Mode,
    name: String,
    key: String,
    token: String,
    gate: Arc<Gate>,
}

/// What an [`Attempt`] is about.
#[verifier::ext_equal]
pub struct AttemptView {
    pub mode: Mode,
    pub name: Seq<char>,
    pub key: Seq<char>,
    pub token: Seq<char>,
    pub gate: Arc<Gate>,
}

impl View for Attempt {
    type V = AttemptView;

    closed spec fn view(&self) -> AttemptView {
        AttemptView {
            mode: self.mode,
            name: self.name@,
            key: self.key@,
            token: self.token@,
            gate: self.gate,
        }
    }
}

impl Attempt {
    /// The lock's gate. Whoever drives the attempt subscribes to its
    /// [`free`](Gate::free) signal before the call to the server, so that no push is
    /// missed.
    pub fn gate(&self) -> (gate: &Arc<Gate>)
        ensures
            *gate == self@.gate,
    {
        &self.gate
    }

    /// The key of the lock.
    pub fn key(&self) -> (key: &str)
        ensures
            key@ == self@.key,
    {
        self.key.as_str()
    }

    /// The token that marks the key as ours.
    pub fn token(&self) -> (token: &str)
        ensures
            token@ == self@.token,
    {
        self.token.as_str()
    }
}

/// What whoever drives an acquisition does next.
pub enum Step {
    /// Make the call and hand the reply to [`Locker::evaluated`].
    Eval(Attempt, Call),
    /// Wait for the `free` signal of its gate, no longer than the span if there is one, then
    /// go on with [`Locker::waited`].
    Wait(Attempt, Option<Span>),
    /// The locker was closed meanwhile: make the call so that the key does not
    /// squat until its TTL expires, ignore the reply, and go on with
    /// [`Locker::discarded`].
    Discard(Attempt, Call),
    /// The lock is held. The extender is to be driven in the background.
    Held(LockGuard, Extender),
    /// The acquisition failed.
    Failed(Error),
}

/// The call that an attempt made at `now` starts with. None where the deadline cannot
/// be written.
pub open spec fn attempt_call(
    settings: crate::config::SettingsView,
    attempt: AttemptView,
    now: int,
) -> Option<crate::script::CallView> {
    match crate::script::acquire_arg(settings.fallback_px, settings.validity, now) {
        Some(arg) => Some(
            crate::script::CallView {
                script: if attempt.mode == Mode::Force {
                    settings.scripts.force
                } else {
                    settings.scripts.acquire
                },
                key: attempt.key,
                args: seq![attempt.token, arg],
            },
        ),
        None => None,
    }
}

/// The call that gives a key back.
pub open spec fn del_call(
    settings: crate::config::SettingsView,
    key: Seq<char>,
    token: Seq<char>,
) -> crate::script::CallView {
    crate::script::CallView { script: settings.scripts.del, key, args: seq![token] }
}

/// What a request for the lock `name` at `now` comes to: the first step, and the
/// state after it. A closed locker refuses. A clock before the epoch fails the
/// attempt, which leaves no trace but the number it used up. Otherwise the call
/// is made under the name's gate.
pub open spec fn begins(
    old: crate::state::LockerView,
    new: crate::state::LockerView,
    name: Seq<char>,
    mode: Mode,
    now: int,
    step: Step,
) -> bool {
    if old.closed {
        &&& new == old
        &&& step matches Step::Failed(error)
        &&& error.says(ErrorKind::Canceled, crate::error::closed_text())
    } else {
        match step {
            Step::Eval(attempt, call) => {
                &&& attempt@.mode == mode
                &&& attempt@.name == name
                &&& attempt@.key == crate::key::key_of(old.settings.prefix, name)
                &&& attempt_call(old.settings, attempt@, now) == Some(call@)
                &&& old.admits(name, &*attempt@.gate)
                &&& new == old.entered(name, attempt@.gate)
            },
            Step::Failed(error) => {
                &&& crate::script::acquire_arg(
                    old.settings.fallback_px,
                    old.settings.validity,
                    now,
                ) is None
                &&& error.says(ErrorKind::Unknown, crate::error::before_epoch_text())
                &&& new == (crate::state::LockerView { issued: (old.issued + 1) as u64, ..old })
            },
            _ => false,
        }
    }
}

/// What an attempt comes to that failed with an error of this kind and text: an acquirer
/// who would wait does so if the lock is held, anyone else is told and gives up
/// its gate.
pub open spec fn refused(
    old: crate::state::LockerView,
    new: crate::state::LockerView,
    attempt: AttemptView,
    kind: ErrorKind,
    details: Seq<char>,
    step: Step,
) -> bool {
    if attempt.mode == Mode::Wait && kind == ErrorKind::NotFound {
        &&& new == old
        &&& step matches Step::Wait(waiting, limit)
        &&& waiting@ == attempt
        &&& match limit {
            Some(limit) => old.settings.no_caching && limit@ == old.settings.try_next,
            None => !old.settings.no_caching,
        }
    } else {
        &&& new == old.left(attempt.name, &*attempt.gate)
        &&& step matches Step::Failed(error)
        &&& error.says(kind, details)
    }
}

/// What the server's reply to an attempt's call comes to.
pub open spec fn answered(
    old: crate::state::LockerView,
    new: crate::state::LockerView,
    attempt: AttemptView,
    reply: Result<Option<String>, Error>,
    step: Step,
) -> bool {
    match reply {
        Err(error) => refused(old, new, attempt, error.kind, error.details@, step),
        Ok(value) => if value is None && attempt.mode != Mode::Force {
            refused(
                old,
                new,
                attempt,
                ErrorKind::NotFound,
                crate::error::not_locked_text(),
                step,
            )
        } else if old.closed {
            &&& new == old
            &&& step matches Step::Discard(discarded, call)
            &&& discarded@ == attempt
            &&& call@ == del_call(old.settings, attempt.key, attempt.token)
        } else {
            &&& step matches Step::Held(guard, extender)
            &&& guard@ == (crate::guard::GuardView {
                name: attempt.name,
                key: attempt.key,
                token: attempt.token,
                gate: attempt.gate,
                cancel: guard@.cancel,
            })
            &&& extender@ == (crate::extender::ExtenderView {
                key: attempt.key,
                token: attempt.token,
                gate: attempt.gate,
                cancel: guard@.cancel,
            })
            &&& guard@.cancel.number() == old.issued
            &&& new == old.registered(guard@.cancel)
        },
    }
}

impl<C> Locker<C> {
    /// Starts an acquisition of `name` under the given token.
    pub fn try_once(&mut self, name: &str, mode: Mode, token: String, now: Timestamp) -> (step:
        Step)
        requires
            old(self)@.wf(),
            !old(self)@.closed ==> old(self)@.has_room() && crate::time::in_range(
                now@ + old(self)@.settings.validity,
            ),
        ensures
            final(self)@.wf(),
            final(self).connection() == old(self).connection(),
            begins(old(self)@, final(self)@, name@, mode, now@, step),
            step matches Step::Eval(attempt, call) ==> attempt@.token == token@,
    {
        let ghost before = self@;
        let gate = match self.get_or_create_gate(name) {
            Some(gate) => gate,
            None => return Step::Failed(locker_closed()),
        };
        let settings = self.settings();
        let key = keyname(settings.prefix.as_str(), name);
        match write_acquire_arg(settings.fallback_px, settings.validity, now) {
            Ok(arg) => {
                let script = match mode {
                    Mode::Force => settings.scripts.force,
                    _ => settings.scripts.acquire,
                };
                let mut args: Vec<String> = Vec::new();
                args.push(token.clone());
                args.push(arg);
                let call = Call { script, key: key.clone(), args };
                assert(call@.args =~= seq![token@, arg@]);
                Step::Eval(Attempt { mode, name: name.to_owned(), key, token, gate }, call)
            },
            Err(error) => {
                self.drop_gate(name, &gate);
                proof {
                    crate::state::leaving_undoes_entering(before, name@, gate);
                }
                Step::Failed(error)
            },
        }
    }

    /// Acquires the lock `name`, waiting until it is available. Ends in
    /// [`ErrorKind::Canceled`] if the locker is closed by then.
    pub fn acquire(&mut self, name: &str, now: Timestamp) -> (step: Step)
        requires
            old(self)@.wf(),
            !old(self)@.closed ==> old(self)@.has_room() && crate::time::in_range(
                now@ + old(self)@.settings.validity,
            ),
        ensures
            final(self)@.wf(),
            final(self).connection() == old(self).connection(),
            begins(old(self)@, final(self)@, name@, Mode::Wait, now@, step),
            step matches Step::Eval(attempt, call) ==> crate::token::is_token(attempt@.token),
    {
        let token = random_token();
        self.try_once(name, Mode::Wait, token, now)
    }

    /// Tries to acquire the lock `name` without waiting. Ends in
    /// [`ErrorKind::NotFound`] if someone else holds it.
    pub fn try_acquire(&mut self, name: &str, now: Timestamp) -> (step: Step)
        requires
            old(self)@.wf(),
            !old(self)@.closed ==> old(self)@.has_room() && crate::time::in_range(
                now@ + old(self)@.settings.validity,
            ),
        ensures
            final(self)@.wf(),
            final(self).connection() == old(self).connection(),
            begins(old(self)@, final(self)@, name@, Mode::Try, now@, step),
            step matches Step::Eval(attempt, call) ==> crate::token::is_token(attempt@.token),
    {
        let token = random_token();
        self.try_once(name, Mode::Try, token, now)
    }

    /// Takes over the lock `name`, evicting whoever holds it. The displaced holder
    /// learns of it by the next push.
    pub fn acquire_force(&mut self, name: &str, now: Timestamp) -> (step: Step)
        requires
            old(self)@.wf(),
            !old(self)@.closed ==> old(self)@.has_room() && crate::time::in_range(
                now@ + old(self)@.settings.validity,
            ),
        ensures
            final(self)@.wf(),
            final(self).connection() == old(self).connection(),
            begins(old(self)@, final(self)@, name@, Mode::Force, now@, step),
            step matches Step::Eval(attempt, call) ==> crate::token::is_token(attempt@.token),
    {
        let token = random_token();
        self.try_once(name, Mode::Force, token, now)
    }

    /// Ends an attempt that failed, or lets it wait.
    fn refuse(&mut self, attempt: Attempt, error: Error) -> (step: Step)
        requires
            old(self)@.wf(),
        ensures
            final(self)@.wf(),
            final(self).connection() == old(self).connection(),
            refused(
                old(self)@,
                final(self)@,
                attempt@,
                error.kind,
                error.details@,
                step,
            ),
    {
        if attempt.mode == Mode::Wait && error.kind == ErrorKind::NotFound {
            let settings = self.settings();
            let limit = if settings.no_caching {
                Some(settings.try_next)
            } else {
                None
            };
            Step::Wait(attempt, limit)
        } else {
            self.drop_gate(attempt.name.as_str(), &attempt.gate);
            Step::Failed(error)
        }
    }

    /// The call that gives a key back.
    pub(crate) fn delete(&self, key: &String, token: &String) -> (call: Call)
        ensures
            call@ == del_call(self@.settings, key@, token@),
    {
        let mut args: Vec<String> = Vec::new();
        args.push(token.clone());
        let call = Call { script: self.settings().scripts.del, key: key.clone(), args };
        assert(call@.args =~= seq![token@]);
        call
    }

    /// Goes on with an attempt when the server replied to its call.
    pub fn evaluated(&mut self, attempt: Attempt, reply: Result<Option<String>, Error>) -> (step:
        Step)
        requires
            old(self)@.wf(),
            !old(self)@.closed ==> old(self)@.has_room(),
        ensures
            final(self)@.wf(),
            final(self).connection() == old(self).connection(),
            answered(old(self)@, final(self)@, attempt@, reply, step),
    {
        match reply {
            Err(error) => self.refuse(attempt, error),
            Ok(value) => {
                if value.is_none() && attempt.mode != Mode::Force {
                    return self.refuse(attempt, not_locked());
                }
                match self.register_outstanding() {
                    None => {
                        let call = self.delete(&attempt.key, &attempt.token);
                        Step::Discard(attempt, call)
                    },
                    Some(cancel) => {
                        let extender = Extender::new(
                            attempt.key.clone(),
                            attempt.token.clone(),
                            attempt.gate.clone(),
                            cancel.clone(),
                        );
                        let guard = LockGuard::new(
                            attempt.name,
                            attempt.key,
                            attempt.token,
                            attempt.gate,
                            cancel,
                        );
                        Step::Held(guard, extender)
                    },
                }
            },
        }
    }

    /// Ends an attempt that its acquirer gave up, whether it was waiting or its call was
    /// under way: it uses its gate no more. A key that was taken for it expires.
    pub fn abandon(&mut self, attempt: Attempt)
        requires
            old(self)@.wf(),
        ensures
            final(self)@.wf(),
            final(self).connection() == old(self).connection(),
            final(self)@ == old(self)@.left(attempt@.name, &*attempt@.gate),
    {
        self.drop_gate(attempt.name.as_str(), &attempt.gate);
    }

    /// Ends an attempt whose key was given back because the locker was closed.
    pub fn discarded(&mut self, attempt: Attempt) -> (error: Error)
        requires
            old(self)@.wf(),
        ensures
            final(self)@.wf(),
            final(self).connection() == old(self).connection(),
            final(self)@ == old(self)@.left(attempt@.name, &*attempt@.gate),
            error.says(ErrorKind::Canceled, crate::error::closed_text()),
    {
        self.abandon(attempt);
        locker_closed()
    }

    /// Tries again after a wait.
    pub fn waited(&mut self, attempt: Attempt, now: Timestamp) -> (step: Step)
        requires
            old(self)@.wf(),
            !old(self)@.closed ==> old(self)@.has_room() && crate::time::in_range(
                now@ + old(self)@.settings.validity,
            ),
        ensures
            final(self)@.wf(),
            final(self).connection() == old(self).connection(),
            begins(
                old(self)@.left(attempt@.name, &*attempt@.gate),
                final(self)@,
                attempt@.name,
                Mode::Wait,
                now@,
                step,
            ),
            step matches Step::Eval(next, call) ==> crate::token::is_token(next@.token),
    {
        self.drop_gate(attempt.name.as_str(), &attempt.gate);
        self.acquire(attempt.name.as_str(), now)
    }
}

} // verus!
