//! The parts of a locker, one by one.

use std::sync::Arc;

use locker::{
    deadline_unix_millis, keyname, locker_closed, not_locked, parse_key, random_token, short_token,
    Error, ErrorKind, InitStep, Invalidation, Locker, LockerConfig, Push, Script, Span, Timestamp,
    Tracking, Wake,
};

#[test]
fn default_settings() {
    for cfg in [LockerConfig::new(), LockerConfig::default()] {
        let locker = Locker::from_client(cfg, 7);
        let settings = locker.settings();
        assert_eq!(settings.prefix, "fredlock");
        assert_eq!(settings.validity, Span::from_secs(5));
        assert_eq!(settings.extend_every, Span::from_millis(2500));
        assert_eq!(settings.try_next, Span::from_millis(20));
        assert!(!settings.no_loop && !settings.fallback_px && !settings.no_caching);
        assert_eq!(settings.scripts.acquire, Script::AcquireAt);
        assert_eq!(settings.scripts.force, Script::ForceAt);
        assert_eq!(settings.scripts.extend, Script::Extend);
        assert_eq!(settings.scripts.del, Script::Del);
        assert_eq!(*locker.client(), 7);
        assert!(!locker.is_closed());
        assert!(!locker.is_initialized());
    }
}

#[test]
fn chosen_settings() {
    let cfg = LockerConfig::new()
        .key_prefix("app:lock")
        .key_validity(Span::new(3, 1))
        .extend_interval(Span::from_secs(1))
        .try_next_after(Span::from_millis(7))
        .no_loop_tracking(true)
        .fallback_set_px(true)
        .disable_caching(true);
    let locker = Locker::from_client(cfg.clone(), ());
    let settings = locker.settings();
    assert_eq!(settings.prefix, "app:lock");
    assert_eq!(settings.validity, Span::new(3, 1));
    assert_eq!(settings.extend_every, Span::from_secs(1));
    assert_eq!(settings.try_next, Span::from_millis(7));
    assert!(settings.no_loop && settings.fallback_px && settings.no_caching);
    assert_eq!(settings.scripts.acquire, Script::AcquireMs);
    assert_eq!(settings.scripts.force, Script::ForceMs);
}

#[test]
fn spans() {
    assert_eq!(Span::from_millis(1500), Span::new(1, 500_000_000));
    assert_eq!(Span::new(3, 1).halved(), Span::new(1, 500_000_000));
    assert_eq!(Span::new(u64::MAX, 999_999_999).as_millis(), 18446744073709551615999);
    assert_eq!(Span::new(0, 999_999).as_millis(), 0);
    assert_eq!(Span::new(2, 5).as_secs(), 2);
    assert_eq!(Span::new(2, 5).subsec_nanos(), 5);
}

#[test]
fn deadlines() {
    assert_eq!(deadline_unix_millis(Timestamp::new(0, 0)), Ok(0));
    assert_eq!(deadline_unix_millis(Timestamp::new(5, 7_999_999)), Ok(5007));
    let error = deadline_unix_millis(Timestamp::new(-1, 999_999_999)).unwrap_err();
    assert_eq!(error.kind(), ErrorKind::Unknown);
    assert_eq!(
        error.details,
        "system clock before UNIX epoch: second time provided was later than self"
    );
    // Beyond the range of `i64` it wraps around.
    assert_eq!(deadline_unix_millis(Timestamp::new(i64::MAX, 0)), Ok(-1000));
    assert_eq!(
        deadline_unix_millis(Timestamp::new(9_223_372_036_854_775, 808_000_000)),
        Ok(i64::MIN)
    );
}

#[test]
fn times_are_added() {
    let now = Timestamp::new(10, 600_000_000);
    assert_eq!(now.plus(Span::new(1, 500_000_000)), Timestamp::new(12, 100_000_000));
    assert_eq!(Timestamp::new(-2, 0).plus(Span::new(1, 5)), Timestamp::new(-1, 5));
    assert!(Timestamp::new(i64::MAX, 0).can_add(Span::new(0, 999_999_999)));
    assert!(!Timestamp::new(i64::MAX, 1).can_add(Span::new(0, 999_999_999)));
    assert!(Timestamp::new(i64::MIN, 0).can_add(Span::from_secs(u64::MAX)));
    assert_eq!(Timestamp::after_epoch(Span::new(4, 5)), Timestamp::new(4, 5));
    assert_eq!(Timestamp::ahead_of_epoch(Span::new(4, 5)), Timestamp::new(-5, 999_999_995));
    assert_eq!(Timestamp::ahead_of_epoch(Span::from_secs(4)), Timestamp::new(-4, 0));
}

#[test]
fn keys_and_names() {
    assert_eq!(keyname("fredlock", "cron:purge"), "fredlock:cron:purge");
    assert_eq!(parse_key("fredlock", "fredlock:cron:purge"), Some("cron:purge"));
    assert_eq!(parse_key("fredlock", "fredlock:"), Some(""));
    assert_eq!(parse_key("fredlock", "fredlock"), None);
    assert_eq!(parse_key("fredlock", "fredlocks:a"), None);
    assert_eq!(parse_key("fredlock", "other:a"), None);
    assert_eq!(parse_key("", ":a"), Some("a"));
    for name in ["", "a", "a:b", "\u{e9}\u{1f512}"] {
        assert_eq!(parse_key("p:q", &keyname("p:q", name)), Some(name));
    }
}

#[test]
fn tokens() {
    let token = random_token();
    assert_eq!(token.len(), 32);
    assert!(token.chars().all(|c| c.is_ascii_alphanumeric()));
    assert_ne!(token, random_token());
    assert_eq!(short_token(&token), &token[..8]);
    assert_eq!(short_token("abc"), "abc");
    assert_eq!(short_token(""), "");
    assert_eq!(short_token("\u{1f512}\u{1f512}\u{1f512}"), "\u{1f512}\u{1f512}");
}

#[test]
fn errors() {
    assert_eq!(locker_closed(), Error::new(ErrorKind::Canceled, "Locker is closed"));
    assert_eq!(
        not_locked(),
        Error::new(ErrorKind::NotFound, "Lock is held by another acquirer")
    );
}

#[test]
fn script_texts() {
    assert_eq!(
        Script::AcquireAt.lua(),
        "\nlocal r = redis.call(\"SET\", KEYS[1], ARGV[1], \"NX\", \"PXAT\", ARGV[2]);\n\
         redis.call(\"GET\", KEYS[1]);\nreturn r;\n"
    );
    assert!(Script::AcquireMs.lua().contains("\"NX\", \"PX\", ARGV[2]"));
    assert!(Script::ForceAt.lua().contains("ARGV[1], \"PXAT\", ARGV[2]"));
    assert!(Script::ForceMs.lua().contains("ARGV[1], \"PX\", ARGV[2]"));
    assert!(Script::Extend.lua().contains("redis.call(\"PEXPIREAT\", KEYS[1], ARGV[2])"));
    assert!(Script::Del.lua().contains("return redis.call(\"DEL\", KEYS[1]);"));
}

#[test]
fn gates_are_shared_and_dropped_with_the_last_user() {
    let mut locker = Locker::from_client(LockerConfig::new(), ());
    let first = locker.get_or_create_gate("a").unwrap();
    let second = locker.get_or_create_gate("a").unwrap();
    let other = locker.get_or_create_gate("b").unwrap();
    assert!(Arc::ptr_eq(&first, &second));
    assert_ne!(first.id(), other.id());
    locker.drop_gate("a", &first);
    assert_eq!(locker.notify_gate("a").len(), 2);
    // A gate that is not the one of the name is left alone.
    locker.drop_gate("a", &other);
    assert_eq!(locker.notify_gate("a").len(), 2);
    locker.drop_gate("a", &second);
    assert!(locker.notify_gate("a").is_empty());
    assert_eq!(locker.wake_all_gates().len(), 2);
    let again = locker.get_or_create_gate("a").unwrap();
    assert_ne!(again.id(), first.id());
}

#[test]
fn waking_all_gates_goes_by_name() {
    let mut locker = Locker::from_client(LockerConfig::new(), ());
    let mut ids: Vec<u64> = Vec::new();
    for name in ["a", "b", "c"] {
        ids.push(locker.get_or_create_gate(name).unwrap().id());
    }
    let wakes = locker.wake_all_gates();
    assert_eq!(wakes.len(), 6);
    for i in 0..3 {
        assert!(matches!(&wakes[2 * i], Wake::FreeAll(gate) if gate.id() == ids[i]));
        assert!(matches!(&wakes[2 * i + 1], Wake::Holder(gate) if gate.id() == ids[i]));
    }
}

#[test]
fn invalidations_wake_the_gates_of_their_keys() {
    let mut locker = Locker::from_client(LockerConfig::new().key_prefix("p"), ());
    let a = locker.get_or_create_gate("a").unwrap();
    let b = locker.get_or_create_gate("\u{e9}").unwrap();
    let keys = vec![
        b"p:a".to_vec(),
        b"p:unknown".to_vec(),
        b"other:a".to_vec(),
        vec![0xff, 0xfe],
        "p:\u{e9}".as_bytes().to_vec(),
    ];
    let wakes = locker.dispatch(&Invalidation { keys });
    assert_eq!(wakes.len(), 4);
    assert!(matches!(&wakes[0], Wake::Free(gate) if gate.id() == a.id()));
    assert!(matches!(&wakes[1], Wake::Holder(gate) if gate.id() == a.id()));
    assert!(matches!(&wakes[2], Wake::Free(gate) if gate.id() == b.id()));
    assert!(matches!(&wakes[3], Wake::Holder(gate) if gate.id() == b.id()));

    let flushed = Push::Received(Invalidation { keys: Vec::new() });
    assert!(matches!(locker.pushed(&flushed).unwrap()[0], Wake::FreeAll(_)));
    assert_eq!(locker.pushed(&Push::Lagged).unwrap().len(), 4);
    assert!(locker.pushed(&Push::Closed).is_none());
}

#[test]
fn signals_reach_those_who_wait() {
    let mut locker = Locker::from_client(LockerConfig::new(), ());
    let gate = locker.get_or_create_gate("a").unwrap();

    // One waiter is woken, and a permit is kept for the next.
    let mut one = Box::pin(gate.free().notified());
    let mut two = Box::pin(gate.free().notified());
    assert!(!one.as_mut().enable());
    assert!(!two.as_mut().enable());
    Wake::Free(gate.clone()).deliver();
    assert!(one.as_mut().enable());
    assert!(!two.as_mut().enable());
    Wake::FreeAll(gate.clone()).deliver();
    assert!(two.as_mut().enable());
    Wake::Free(gate.clone()).deliver();
    assert!(Box::pin(gate.free().notified()).as_mut().enable());

    // Waking everyone keeps no permit.
    Wake::FreeAll(gate.clone()).deliver();
    assert!(!Box::pin(gate.free().notified()).as_mut().enable());

    Wake::Holder(gate.clone()).deliver();
    assert!(Box::pin(gate.holder().notified()).as_mut().enable());
}

#[test]
fn cancelling_happens_once() {
    let mut locker = Locker::from_client(LockerConfig::new(), ());
    let first = locker.register_outstanding().unwrap();
    let second = locker.register_outstanding().unwrap();
    assert_ne!(first.id(), second.id());
    assert!(!locker.is_cancelled(&first));
    assert_eq!(locker.cancel(&first).len(), 1);
    assert!(locker.cancel(&first).is_empty());
    assert!(locker.is_cancelled(&first));
    assert!(!locker.is_cancelled(&second));
    locker.deregister_outstanding(&first);
    locker.deregister_outstanding(&first);
    assert!(locker.is_cancelled(&first));

    // Closing tells only those who were not told.
    let third = locker.register_outstanding().unwrap();
    locker.cancel(&second);
    let closing = locker.close().unwrap();
    assert_eq!(closing.wakes.len(), 1);
    assert!(matches!(&closing.wakes[0], Wake::Lost(cancel) if cancel.id() == third.id()));
    assert!(locker.is_cancelled(&third));
}

#[test]
fn giving_back_does_not_cancel() {
    let mut locker = Locker::from_client(LockerConfig::new(), ());
    let first = locker.register_outstanding().unwrap();
    let second = locker.register_outstanding().unwrap();
    locker.deregister_outstanding(&first);
    assert!(!locker.is_cancelled(&first));

    // Closing reaches only what was not given back.
    let closing = locker.close().unwrap();
    assert_eq!(closing.wakes.len(), 1);
    assert!(matches!(&closing.wakes[0], Wake::Lost(cancel) if cancel.id() == second.id()));
    assert!(locker.is_cancelled(&second));
    assert!(!locker.is_cancelled(&first));
    assert_eq!(locker.cancel(&first).len(), 1);
    assert!(locker.is_cancelled(&first));
}

#[test]
fn initialization() {
    let mut locker = Locker::from_client(LockerConfig::new(), ());
    match locker.init(false) {
        InitStep::Failed(error) => {
            assert_eq!(error.kind(), ErrorKind::Config);
            assert_eq!(
                error.details,
                "Locker requires a connected client; call Client::init() first."
            );
        },
        _ => panic!("not refused"),
    }
    match locker.init(true) {
        InitStep::Load(scripts, tracking) => {
            assert_eq!(
                scripts,
                vec![Script::AcquireAt, Script::ForceAt, Script::Extend, Script::Del]
            );
            assert_eq!(
                tracking,
                Some(Tracking { bcast: false, optin: false, optout: true, noloop: false })
            );
        },
        _ => panic!("nothing to load"),
    }
    let error = Error::new(ErrorKind::Other, "RESP2");
    assert_eq!(locker.initialize(Err(error.clone())), Err(error));
    assert!(!locker.is_initialized());
    assert!(matches!(locker.init(true), InitStep::Load(_, _)));
    assert_eq!(locker.initialize(Ok(())), Ok(true));
    assert!(matches!(locker.init(false), InitStep::Ready));

    let mut polling = Locker::from_client(LockerConfig::new().disable_caching(true), ());
    assert!(matches!(polling.init(true), InitStep::Load(_, None)));
    assert_eq!(polling.initialize(Ok(())), Ok(false));
    assert!(!polling.close().unwrap().stop_tracking);
}
