//! Lockers driven against an in-memory server.

use std::collections::HashMap;
use std::sync::Arc;

use locker::{
    deliver_all, Action, Attempt, Call, Error, ErrorKind, Event, Extender, InitStep, Invalidation,
    LockGuard, Locker, LockerConfig, Push, Script, Span, Step, Timestamp, Tracking, Wake, Wakeup,
};

enum Reply {
    Done,
    Nil,
    Number(i64),
    Refused,
}

struct Server {
    keys: HashMap<String, (String, i64)>,
    now: i64,
}

impl Server {
    fn new() -> Server {
        Server { keys: HashMap::new(), now: 1_700_000_000_000 }
    }

    fn clock(&self) -> Timestamp {
        Timestamp::new(self.now / 1000, (self.now % 1000) as u32 * 1_000_000)
    }

    fn holder(&self, key: &str) -> Option<String> {
        match self.keys.get(key) {
            Some((token, deadline)) if self.now <= *deadline => Some(token.clone()),
            _ => None,
        }
    }

    fn set(&mut self, call: &Call, deadline: i64) -> Reply {
        self.keys.insert(call.key.clone(), (call.args[0].clone(), deadline));
        Reply::Done
    }

    fn eval(&mut self, call: &Call) -> Reply {
        let number: i64 = match call.args.get(1) {
            Some(arg) => arg.parse().unwrap(),
            None => 0,
        };
        let sets = matches!(
            call.script,
            Script::AcquireAt | Script::AcquireMs | Script::ForceAt | Script::ForceMs
        );
        if sets && number <= 0 {
            return Reply::Refused;
        }
        let holder = self.holder(&call.key);
        let ours = holder.as_deref() == Some(call.args[0].as_str());
        match call.script {
            Script::AcquireAt | Script::AcquireMs if holder.is_some() => Reply::Nil,
            Script::AcquireAt | Script::ForceAt => self.set(call, number),
            Script::AcquireMs | Script::ForceMs => self.set(call, self.now + number),
            Script::Extend if ours => {
                self.set(call, number);
                Reply::Number(1)
            },
            Script::Del if ours => {
                self.keys.remove(&call.key);
                Reply::Number(1)
            },
            Script::Extend | Script::Del => Reply::Number(0),
        }
    }

    fn value(&mut self, call: &Call) -> Result<Option<String>, Error> {
        match self.eval(call) {
            Reply::Done => Ok(Some("OK".to_string())),
            Reply::Nil => Ok(None),
            Reply::Number(_) => panic!("not a value"),
            Reply::Refused => Err(Error::new(ErrorKind::Other, "ERR invalid expire time")),
        }
    }

    fn number(&mut self, call: &Call) -> Result<i64, Error> {
        match self.eval(call) {
            Reply::Number(n) => Ok(n),
            _ => panic!("not a number"),
        }
    }
}

fn fresh(cfg: LockerConfig) -> Locker<()> {
    let mut locker = Locker::from_client(cfg, ());
    assert!(matches!(locker.init(true), InitStep::Load(_, _)));
    assert!(locker.initialize(Ok(())).is_ok());
    assert!(matches!(locker.init(true), InitStep::Ready));
    locker
}

fn plain() -> Locker<()> {
    fresh(LockerConfig::new().key_prefix("test"))
}

fn go_on(locker: &mut Locker<()>, server: &mut Server, step: Step) -> Step {
    match step {
        Step::Eval(attempt, call) => {
            let reply = server.value(&call);
            locker.evaluated(attempt, reply)
        },
        step => step,
    }
}

fn held(step: Step) -> (LockGuard, Extender) {
    match step {
        Step::Held(guard, extender) => (guard, extender),
        _ => panic!("not held"),
    }
}

fn failed(step: Step) -> Error {
    match step {
        Step::Failed(error) => error,
        _ => panic!("not failed"),
    }
}

fn waiting(step: Step) -> (Attempt, Option<Span>) {
    match step {
        Step::Wait(attempt, limit) => (attempt, limit),
        _ => panic!("not waiting"),
    }
}

fn acquire(locker: &mut Locker<()>, server: &mut Server, name: &str) -> Step {
    let step = locker.acquire(name, server.clock());
    go_on(locker, server, step)
}

fn try_acquire(locker: &mut Locker<()>, server: &mut Server, name: &str) -> Step {
    let step = locker.try_acquire(name, server.clock());
    go_on(locker, server, step)
}

fn acquire_force(locker: &mut Locker<()>, server: &mut Server, name: &str) -> Step {
    let step = locker.acquire_force(name, server.clock());
    go_on(locker, server, step)
}

/// Runs an extender from a wakeup until it waits again or ends.
fn wake(
    locker: &mut Locker<()>,
    server: &mut Server,
    extender: &Extender,
    by: Wakeup,
) -> Vec<Wake> {
    let mut event = Event::Woken(by, server.clock());
    let mut given = Vec::new();
    loop {
        match extender.step(locker, event) {
            Action::Wait(_) => return given,
            Action::Extend(call) => event = Event::Extended(server.number(&call)),
            Action::Delete(wakes, call) => {
                assert!(extender_is_lost(locker, extender));
                given.extend(wakes);
                let _ = server.number(&call);
                event = Event::Deleted;
            },
            Action::Stop => return given,
        }
    }
}

fn extender_is_lost(locker: &Locker<()>, extender: &Extender) -> bool {
    locker.is_cancelled(extender.cancellation())
}

fn release(
    locker: &mut Locker<()>,
    server: &mut Server,
    guard: LockGuard,
    extender: &Extender,
) -> Vec<Wake> {
    let mut wakes = guard.release(locker);
    assert!(wake(locker, server, extender, Wakeup::Cancelled).is_empty());
    wakes.extend(guard.retire(locker));
    wakes
}

#[test]
fn should_acquire_and_release() {
    let mut server = Server::new();
    let mut locker = plain();
    let step = acquire(&mut locker, &mut server, "a");
    let (guard, extender) = held(step);
    assert!(!guard.is_lost(&locker));
    assert_eq!(guard.key(), "test:a");
    assert_eq!(server.holder("test:a").as_deref(), Some(guard.token()));
    release(&mut locker, &mut server, guard, &extender);
    assert_eq!(server.holder("test:a"), None);

    let step = try_acquire(&mut locker, &mut server, "a");
    let (guard, extender) = held(step);
    release(&mut locker, &mut server, guard, &extender);
    assert!(locker.wake_all_gates().is_empty());
    assert!(locker.close().is_some());
}

#[test]
fn should_try_acquire_returns_not_found_when_held() {
    let mut server = Server::new();
    let mut locker = plain();
    let step = try_acquire(&mut locker, &mut server, "b");
    let (guard, extender) = held(step);
    let step = try_acquire(&mut locker, &mut server, "b");
    let error = failed(step);
    assert_eq!(error.kind(), ErrorKind::NotFound);
    assert_eq!(error.details, "Lock is held by another acquirer");
    assert!(!guard.is_lost(&locker));
    release(&mut locker, &mut server, guard, &extender);
}

#[test]
fn should_wait_until_holder_releases() {
    let mut server = Server::new();
    let mut locker = plain();
    let step = acquire(&mut locker, &mut server, "c");
    let (guard, extender) = held(step);
    let step = acquire(&mut locker, &mut server, "c");
    let (waiter, limit) = waiting(step);
    assert!(limit.is_none());

    let gate = waiter.gate().clone();
    let mut woken = Box::pin(gate.free().notified());
    assert!(!woken.as_mut().enable());
    let wakes = release(&mut locker, &mut server, guard, &extender);
    deliver_all(&wakes);
    assert!(woken.as_mut().enable());

    let step = locker.waited(waiter, server.clock());
    let step = go_on(&mut locker, &mut server, step);
    let (guard, extender) = held(step);
    release(&mut locker, &mut server, guard, &extender);
    assert!(locker.wake_all_gates().is_empty());
}

#[test]
fn should_auto_extend_past_validity() {
    let mut server = Server::new();
    let mut locker = fresh(
        LockerConfig::new()
            .key_prefix("test")
            .key_validity(Span::from_millis(600))
            .extend_interval(Span::from_millis(200)),
    );
    let step = acquire(&mut locker, &mut server, "d");
    let (guard, extender) = held(step);
    match extender.start(&locker) {
        Action::Wait(span) => assert_eq!(span, Span::from_millis(200)),
        _ => panic!("no wait"),
    }
    for _ in 0..9 {
        server.now += 200;
        assert!(wake(&mut locker, &mut server, &extender, Wakeup::Tick).is_empty());
    }
    assert!(!guard.is_lost(&locker));
    let step = try_acquire(&mut locker, &mut server, "d");
    assert_eq!(failed(step).kind(), ErrorKind::NotFound);
    release(&mut locker, &mut server, guard, &extender);
}

#[test]
fn extends_past_validity_without_pxat() {
    let mut server = Server::new();
    let mut locker = fresh(
        LockerConfig::new()
            .key_prefix("test")
            .key_validity(Span::from_millis(600))
            .fallback_set_px(true),
    );
    let step = acquire(&mut locker, &mut server, "d");
    let (guard, extender) = held(step);
    for _ in 0..6 {
        server.now += 300;
        assert!(wake(&mut locker, &mut server, &extender, Wakeup::Tick).is_empty());
    }
    assert!(!guard.is_lost(&locker));
    assert_eq!(server.holder("test:d").as_deref(), Some(guard.token()));
    release(&mut locker, &mut server, guard, &extender);
}

#[test]
fn unextended_lock_expires() {
    let mut server = Server::new();
    let mut a = fresh(LockerConfig::new().key_validity(Span::from_millis(600)));
    let mut b = fresh(LockerConfig::new().key_validity(Span::from_millis(600)));
    let step = acquire(&mut a, &mut server, "x");
    let (first, extender) = held(step);
    server.now += 601;
    let step = try_acquire(&mut b, &mut server, "x");
    let (second, _) = held(step);
    assert_eq!(wake(&mut a, &mut server, &extender, Wakeup::Tick).len(), 1);
    assert!(first.is_lost(&a));
    assert_eq!(server.holder("fredlock:x").as_deref(), Some(second.token()));
}

#[test]
fn should_signal_cancelled_on_force_takeover() {
    let mut server = Server::new();
    let mut a = plain();
    let mut b = plain();
    let step = acquire(&mut a, &mut server, "e");
    let (guard, extender) = held(step);
    let awaited = guard.cancelled(&a).unwrap();
    let mut lost = Box::pin(awaited.lost().notified());
    assert!(!lost.as_mut().enable());

    let step = acquire_force(&mut b, &mut server, "e");
    let (taken, _) = held(step);

    // The push for the key wakes the displaced holder's extender.
    let push = Push::Received(Invalidation { keys: vec![b"test:e".to_vec()] });
    let mut invalidated = Box::pin(extender.gate().holder().notified());
    assert!(!invalidated.as_mut().enable());
    let wakes = a.pushed(&push).unwrap();
    assert_eq!(wakes.len(), 2);
    deliver_all(&wakes);
    assert!(invalidated.as_mut().enable());

    let wakes = wake(&mut a, &mut server, &extender, Wakeup::Invalidated);
    assert!(matches!(wakes[0], Wake::Lost(_)));
    deliver_all(&wakes);
    assert!(lost.as_mut().enable());
    assert!(guard.is_lost(&a));
    assert!(guard.cancelled(&a).is_none());
    assert_eq!(server.holder("test:e").as_deref(), Some(taken.token()));
}

#[test]
fn should_rearm_tracking_after_reconnect() {
    let mut server = Server::new();
    let mut locker = fresh(LockerConfig::new().key_prefix("test").no_loop_tracking(true));
    let step = acquire(&mut locker, &mut server, "g");
    let (_guard, extender) = held(step);
    assert_eq!(
        locker.tracking(),
        Tracking { bcast: false, optin: false, optout: true, noloop: true }
    );
    let error = Error::new(ErrorKind::Other, "connection reset");
    for armed in [Ok(()), Err(error)] {
        let wakes = locker.rearmed(&armed);
        assert_eq!(wakes.len(), 2);
        assert!(matches!(&wakes[0], Wake::FreeAll(gate) if gate.id() == extender.gate().id()));
        assert!(matches!(&wakes[1], Wake::Holder(gate) if gate.id() == extender.gate().id()));
    }
}

#[test]
fn should_cancel_outstanding_guards_on_close() {
    let mut server = Server::new();
    let mut locker = plain();
    let step = acquire(&mut locker, &mut server, "f");
    let (guard, extender) = held(step);
    assert!(!guard.is_lost(&locker));
    let awaited = guard.cancelled(&locker).unwrap();
    let mut lost = Box::pin(awaited.lost().notified());
    assert!(!lost.as_mut().enable());

    let closing = locker.close().unwrap();
    assert!(closing.stop_tracking);
    assert_eq!(closing.wakes.len(), 3);
    assert!(matches!(&closing.wakes[0], Wake::Lost(cancel) if Arc::ptr_eq(cancel, &awaited)));
    deliver_all(&closing.wakes);
    assert!(lost.as_mut().enable());
    assert!(guard.is_lost(&locker));

    // The extender deletes the key on its way out, and everyone was told.
    assert!(wake(&mut locker, &mut server, &extender, Wakeup::Cancelled).is_empty());
    assert_eq!(server.holder("test:f"), None);
    let wakes = guard.retire(&mut locker);
    assert_eq!(wakes.len(), 2);
    assert!(locker.close().is_none());
}

#[test]
fn closed_locker_refuses_everything() {
    let mut server = Server::new();
    let mut locker = plain();
    let step = acquire(&mut locker, &mut server, "h");
    let (guard, _) = held(step);
    let step = acquire(&mut locker, &mut server, "h");
    let (waiter, _) = waiting(step);
    assert!(locker.close().is_some());
    assert!(locker.is_closed());

    let error = failed(locker.waited(waiter, server.clock()));
    assert_eq!(error.kind(), ErrorKind::Canceled);
    assert_eq!(error.details, "Locker is closed");
    assert_eq!(failed(locker.acquire("h", server.clock())).kind(), ErrorKind::Canceled);
    assert_eq!(failed(locker.try_acquire("h", server.clock())).kind(), ErrorKind::Canceled);
    assert_eq!(failed(locker.acquire_force("h", server.clock())).kind(), ErrorKind::Canceled);
    assert!(locker.get_or_create_gate("h").is_none());
    assert!(locker.register_outstanding().is_none());
    guard.retire(&mut locker);
    assert!(locker.wake_all_gates().is_empty());
}

#[test]
fn closed_locker_refuses_whatever_the_clock_says() {
    let mut server = Server::new();
    let mut locker = plain();
    let step = acquire(&mut locker, &mut server, "h");
    let (guard, _) = held(step);
    let step = acquire(&mut locker, &mut server, "h");
    let (waiter, _) = waiting(step);
    assert!(locker.close().is_some());

    // The validity cannot be added to this time.
    let last = Timestamp::new(i64::MAX, 999_999_999);
    assert!(!last.can_add(locker.settings().validity));
    for step in [
        locker.waited(waiter, last),
        locker.acquire("h", last),
        locker.try_acquire("h", last),
        locker.acquire_force("h", last),
    ] {
        let error = failed(step);
        assert_eq!(error.kind(), ErrorKind::Canceled);
        assert_eq!(error.details, "Locker is closed");
    }
    guard.retire(&mut locker);
    assert!(locker.wake_all_gates().is_empty());
}

#[test]
fn closing_wakes_and_refuses_those_who_wait() {
    let mut server = Server::new();
    let mut locker = plain();
    let step = acquire(&mut locker, &mut server, "h");
    let (_guard, _) = held(step);
    let step = acquire(&mut locker, &mut server, "h");
    let (waiter, _) = waiting(step);
    let gate = waiter.gate().clone();
    let mut woken = Box::pin(gate.free().notified());
    assert!(!woken.as_mut().enable());
    deliver_all(&locker.close().unwrap().wakes);
    assert!(woken.as_mut().enable());
    let error = failed(locker.waited(waiter, server.clock()));
    assert_eq!(error.kind(), ErrorKind::Canceled);
}

#[test]
fn abandoned_attempts_leave_no_gate_behind() {
    let mut server = Server::new();
    let mut locker = plain();
    let mut other = plain();
    let step = acquire(&mut other, &mut server, "a");
    let (_guard, _) = held(step);

    // One who waits.
    let step = acquire(&mut locker, &mut server, "a");
    let (waiter, _) = waiting(step);
    assert_eq!(locker.notify_gate("a").len(), 2);
    locker.abandon(waiter);
    assert!(locker.notify_gate("a").is_empty());

    // One whose call is under way, beside one who stays.
    let step = acquire(&mut locker, &mut server, "a");
    let (stays, _) = waiting(step);
    match locker.acquire("a", server.clock()) {
        Step::Eval(attempt, _) => locker.abandon(attempt),
        _ => panic!("no call"),
    }
    assert_eq!(locker.notify_gate("a").len(), 2);
    locker.abandon(stays);
    assert!(locker.wake_all_gates().is_empty());
}

#[test]
fn expiry_that_the_server_refuses_fails_the_attempt() {
    let mut server = Server::new();
    let cfg = LockerConfig::new().key_prefix("test").fallback_set_px(true);
    let mut locker = fresh(cfg.key_validity(Span::new(0, 999_999)));
    for force in [false, true] {
        let step = if force {
            acquire_force(&mut locker, &mut server, "r")
        } else {
            try_acquire(&mut locker, &mut server, "r")
        };
        assert_eq!(failed(step), Error::new(ErrorKind::Other, "ERR invalid expire time"));
        assert_eq!(server.holder("test:r"), None);
        assert!(locker.wake_all_gates().is_empty());
    }
}

#[test]
fn key_is_given_back_when_closed_meanwhile() {
    let mut server = Server::new();
    let mut locker = plain();
    let (attempt, call) = match locker.acquire("i", server.clock()) {
        Step::Eval(attempt, call) => (attempt, call),
        _ => panic!("no call"),
    };
    let reply = server.value(&call);
    assert!(locker.close().is_some());
    match locker.evaluated(attempt, reply) {
        Step::Discard(attempt, call) => {
            assert_eq!(call.script, Script::Del);
            assert_eq!(call.key, "test:i");
            assert_eq!(call.args, vec![attempt.token().to_string()]);
            assert_eq!(server.number(&call), Ok(1));
            let error = locker.discarded(attempt);
            assert_eq!(error.kind(), ErrorKind::Canceled);
        },
        _ => panic!("not discarded"),
    }
    assert_eq!(server.holder("test:i"), None);
    assert!(locker.wake_all_gates().is_empty());
}

#[test]
fn only_one_of_two_lockers_holds() {
    let mut server = Server::new();
    let mut a = plain();
    let mut b = plain();
    let step = try_acquire(&mut a, &mut server, "j");
    let (first, extender) = held(step);
    for _ in 0..20 {
        let step = try_acquire(&mut b, &mut server, "j");
        assert_eq!(failed(step).kind(), ErrorKind::NotFound);
        server.now += 100;
    }
    assert_eq!(server.holder("test:j").as_deref(), Some(first.token()));
    release(&mut a, &mut server, first, &extender);
    let step = try_acquire(&mut b, &mut server, "j");
    held(step);
}

#[test]
fn extended_lock_stays_with_its_holder_while_others_ask() {
    let mut server = Server::new();
    let cfg = LockerConfig::new().key_prefix("test").key_validity(Span::from_millis(600));
    let mut a = fresh(cfg.clone());
    let mut b = fresh(cfg);
    let step = try_acquire(&mut a, &mut server, "s");
    let (guard, extender) = held(step);
    let acquired = server.now;
    while server.now < acquired + 1800 {
        server.now += 300;
        let step = try_acquire(&mut b, &mut server, "s");
        assert_eq!(failed(step).kind(), ErrorKind::NotFound);
        let step = try_acquire(&mut b, &mut server, "t");
        let (other, other_extender) = held(step);
        release(&mut b, &mut server, other, &other_extender);
        assert!(wake(&mut a, &mut server, &extender, Wakeup::Tick).is_empty());
        assert_eq!(server.holder("test:s").as_deref(), Some(guard.token()));
    }
    // The last extension counts from when it was made.
    server.now += 600;
    let step = try_acquire(&mut b, &mut server, "s");
    assert_eq!(failed(step).kind(), ErrorKind::NotFound);
    server.now += 1;
    let step = try_acquire(&mut b, &mut server, "s");
    held(step);
    assert_eq!(wake(&mut a, &mut server, &extender, Wakeup::Tick).len(), 1);
    assert!(guard.is_lost(&a));
}

#[test]
fn takeover_is_noticed_after_whatever_followed_it() {
    let mut server = Server::new();
    let mut a = plain();
    let mut b = plain();
    let mut c = plain();
    let step = acquire(&mut a, &mut server, "u");
    let (guard, extender) = held(step);
    let step = acquire_force(&mut b, &mut server, "u");
    let (taken, taker) = held(step);
    assert!(wake(&mut b, &mut server, &taker, Wakeup::Tick).is_empty());
    release(&mut b, &mut server, taken, &taker);
    let step = acquire(&mut c, &mut server, "u");
    let (last, _) = held(step);
    assert_eq!(wake(&mut a, &mut server, &extender, Wakeup::Tick).len(), 1);
    assert!(guard.is_lost(&a));
    assert_eq!(server.holder("test:u").as_deref(), Some(last.token()));

    // The key being free again makes no difference.
    let step = acquire_force(&mut a, &mut server, "u");
    let (guard, extender) = held(step);
    let step = acquire_force(&mut b, &mut server, "u");
    let (taken, taker) = held(step);
    release(&mut b, &mut server, taken, &taker);
    assert_eq!(wake(&mut a, &mut server, &extender, Wakeup::Invalidated).len(), 1);
    assert!(guard.is_lost(&a));
    assert_eq!(server.holder("test:u"), None);
}

#[test]
fn client_error_ends_an_attempt() {
    let server = Server::new();
    let mut locker = plain();
    for kind in [ErrorKind::Other, ErrorKind::Canceled, ErrorKind::Config, ErrorKind::Unknown] {
        match locker.acquire("k", server.clock()) {
            Step::Eval(attempt, _) => {
                let error = Error::new(kind, "boom");
                assert_eq!(failed(locker.evaluated(attempt, Err(error.clone()))), error);
            },
            _ => panic!("no call"),
        }
        assert!(locker.wake_all_gates().is_empty());
    }
}

#[test]
fn client_error_of_a_held_lock_waits() {
    let server = Server::new();
    let mut locker = fresh(
        LockerConfig::new().disable_caching(true).try_next_after(Span::from_millis(30)),
    );
    match locker.acquire("k", server.clock()) {
        Step::Eval(attempt, _) => {
            let error = Error::new(ErrorKind::NotFound, "boom");
            let step = locker.evaluated(attempt, Err(error));
            let (_, limit) = waiting(step);
            assert_eq!(limit, Some(Span::from_millis(30)));
        },
        _ => panic!("no call"),
    }
    assert_eq!(locker.wake_all_gates().len(), 2);
}

#[test]
fn takeover_is_granted_whatever_the_reply() {
    let server = Server::new();
    let mut locker = plain();
    match locker.acquire_force("l", server.clock()) {
        Step::Eval(attempt, call) => {
            assert_eq!(call.script, Script::ForceAt);
            held(locker.evaluated(attempt, Ok(None)));
        },
        _ => panic!("no call"),
    }
}

#[test]
fn calls_carry_key_token_and_deadline() {
    let mut locker = fresh(LockerConfig::new());
    let now = Timestamp::new(1_700_000_000, 123_999_999);
    match locker.acquire("m", now) {
        Step::Eval(attempt, call) => {
            assert_eq!(call.script, Script::AcquireAt);
            assert_eq!(call.key, "fredlock:m");
            assert_eq!(attempt.key(), "fredlock:m");
            let token = attempt.token().to_string();
            assert_eq!(token.len(), 32);
            assert_eq!(call.args, vec![token, "1700000005123".to_string()]);
        },
        _ => panic!("no call"),
    }
    // A deadline beyond the range of `i64` wraps around.
    match locker.try_acquire("m", Timestamp::new(i64::MAX - 5, 0)) {
        Step::Eval(_, call) => assert_eq!(call.args[1], "-1000"),
        _ => panic!("no call"),
    }
    let mut locker = fresh(LockerConfig::new().fallback_set_px(true));
    match locker.try_acquire("m", now) {
        Step::Eval(_, call) => {
            assert_eq!(call.script, Script::AcquireMs);
            assert_eq!(call.args[1], "5000");
        },
        _ => panic!("no call"),
    }
    match locker.acquire_force("m", now) {
        Step::Eval(_, call) => assert_eq!(call.script, Script::ForceMs),
        _ => panic!("no call"),
    }
}

#[test]
fn clock_before_the_epoch_fails_an_attempt() {
    let mut locker = plain();
    let error = failed(locker.acquire("n", Timestamp::new(-10, 0)));
    assert_eq!(error.kind(), ErrorKind::Unknown);
    assert_eq!(
        error.details,
        "system clock before UNIX epoch: second time provided was later than self"
    );
    assert!(locker.wake_all_gates().is_empty());
}

#[test]
fn extender_ends_on_error_and_on_a_bad_clock() {
    let mut server = Server::new();
    let mut locker = plain();
    let step = acquire(&mut locker, &mut server, "o");
    let (guard, extender) = held(step);
    let error = Error::new(ErrorKind::Other, "boom");
    match extender.step(&mut locker, Event::Extended(Err(error))) {
        Action::Delete(wakes, call) => {
            assert_eq!(wakes.len(), 1);
            assert_eq!(call.script, Script::Del);
            assert_eq!(call.args, vec![guard.token().to_string()]);
        },
        _ => panic!("no end"),
    }
    assert!(guard.is_lost(&locker));

    let step = acquire_force(&mut locker, &mut server, "p");
    let (guard, extender) = held(step);
    match extender.step(&mut locker, Event::Woken(Wakeup::Tick, Timestamp::new(-10, 0))) {
        Action::Delete(wakes, _) => assert_eq!(wakes.len(), 1),
        _ => panic!("no end"),
    }
    assert!(guard.is_lost(&locker));
    assert!(matches!(extender.step(&mut locker, Event::Deleted), Action::Stop));
}

#[test]
fn extension_carries_token_and_deadline() {
    let mut server = Server::new();
    for fallback in [false, true] {
        let mut locker = fresh(LockerConfig::new().fallback_set_px(fallback));
        let step = acquire_force(&mut locker, &mut server, "q");
        let (guard, extender) = held(step);
        let now = Timestamp::new(1_700_000_000, 0);
        match extender.step(&mut locker, Event::Woken(Wakeup::Invalidated, now)) {
            Action::Extend(call) => {
                assert_eq!(call.script, Script::Extend);
                assert_eq!(call.key, "fredlock:q");
                let deadline = "1700000005000".to_string();
                assert_eq!(call.args, vec![guard.token().to_string(), deadline]);
            },
            _ => panic!("no extension"),
        }
    }
}
