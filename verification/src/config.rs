//! The knobs of a locker.

use vstd::prelude::*;

use crate::script::Scripts;
use crate::time::Span;

verus! {

/// The key prefix of a locker that was given none.
pub const DEFAULT_KEY_PREFIX: &'static str = "fredlock";

/// Tunable knobs for a [`Locker`](crate::Locker). By default keys start with
/// `fredlock`, a lock is valid for five seconds and extended at half that time,
/// a waiter without push notifications polls every twenty milliseconds, and client
/// tracking is on.
#[derive(Clone, Debug)]
pub struct LockerConfig {
    prefix: String,
    validity: Span,
    extend_every: Option<Span>,
    try_next: Span,
    no_loop: bool,
    fallback_px: bool,
    no_caching: bool,
}

/// What a [`LockerConfig`] holds, with times in nanoseconds.
#[verifier::ext_equal]
pub struct ConfigView {
    pub prefix: Seq<char>,
    pub validity: nat,
    pub extend_every: Option<nat>,
    pub try_next: nat,
    pub no_loop: bool,
    pub fallback_px: bool,
    pub no_caching: bool,
}

impl View for LockerConfig {
    type V = ConfigView;

    closed spec fn view(&self) -> ConfigView {
        ConfigView {
            prefix: self.prefix@,
            validity: self.validity@,
            extend_every: match self.extend_every {
                Some(every) => Some(every@),
                None => None,
            },
            try_next: self.try_next@,
            no_loop: self.no_loop,
            fallback_px: self.fallback_px,
            no_caching: self.no_caching,
        }
    }
}

/// What a fresh [`LockerConfig`] holds.
pub open spec fn default_config() -> ConfigView {
    ConfigView {
        prefix: "fredlock"@,
        validity: 5_000_000_000,
        extend_every: None,
        try_next: 20_000_000,
        no_loop: false,
        fallback_px: false,
        no_caching: false,
    }
}

impl Default for LockerConfig {
    fn default() -> (config: Self)
        ensures
            config@ == default_config(),
    {
        Self::new()
    }
}

impl LockerConfig {
    /// The defaults.
    pub fn new() -> (config: Self)
        ensures
            config@ == default_config(),
    {
        LockerConfig {
            prefix: DEFAULT_KEY_PREFIX.to_owned(),
            validity: Span::from_secs(5),
            extend_every: None,
            try_next: Span::from_millis(20),
            no_loop: false,
            fallback_px: false,
            no_caching: false,
        }
    }

    /// Prefix applied to every Redis key the locker writes. Keys take the shape
    /// `{prefix}:{name}`. Defaults to `fredlock`.
    pub fn key_prefix(self, prefix: &str) -> (config: Self)
        ensures
            config@ == (ConfigView { prefix: prefix@, ..self@ }),
    {
        LockerConfig { prefix: prefix.to_owned(), ..self }
    }

    /// How long an acquisition stays valid in Redis before its TTL would expire
    /// without an extension. The default is five seconds.
    pub fn key_validity(self, validity: Span) -> (config: Self)
        ensures
            config@ == (ConfigView { validity: validity@, ..self@ }),
    {
        LockerConfig { validity, ..self }
    }

    /// How often the background extender bumps the TTL. Defaults to half the
    /// validity. Larger values mean less network chatter but a longer window
    /// between a stalled holder and the TTL elapsing on the server.
    pub fn extend_interval(self, interval: Span) -> (config: Self)
        ensures
            config@ == (ConfigView { extend_every: Some(interval@), ..self@ }),
    {
        LockerConfig { extend_every: Some(interval), ..self }
    }

    /// Poll interval of a waiting acquirer when client tracking is disabled. No
    /// effect when tracking is enabled: waiters are woken by pushes instead.
    pub fn try_next_after(self, dur: Span) -> (config: Self)
        ensures
            config@ == (ConfigView { try_next: dur@, ..self@ }),
    {
        LockerConfig { try_next: dur, ..self }
    }

    /// Send `NOLOOP` with `CLIENT TRACKING` so the connection does not receive
    /// invalidations triggered by its own writes. Requires Redis 7.0.5 or later.
    pub fn no_loop_tracking(self, enabled: bool) -> (config: Self)
        ensures
            config@ == (ConfigView { no_loop: enabled, ..self@ }),
    {
        LockerConfig { no_loop: enabled, ..self }
    }

    /// Use `SET ... NX PX <ms>` instead of `SET ... NX PXAT <deadline>`, for Redis
    /// before 6.2, which lacks `PXAT`.
    pub fn fallback_set_px(self, enabled: bool) -> (config: Self)
        ensures
            config@ == (ConfigView { fallback_px: enabled, ..self@ }),
    {
        LockerConfig { fallback_px: enabled, ..self }
    }

    /// Disable client tracking. Waiters fall back to polling, and held locks only
    /// notice eviction at the next extension tick. Required under RESP2.
    pub fn disable_caching(self, disabled: bool) -> (config: Self)
        ensures
            config@ == (ConfigView { no_caching: disabled, ..self@ }),
    {
        LockerConfig { no_caching: disabled, ..self }
    }

    /// What a locker with these knobs works with.
    pub fn into_settings(self) -> (settings: Settings)
        ensures
            settings@ == settings_of(self@),
    {
        let extend_every = match self.extend_every {
            Some(interval) => interval,
            None => self.validity.halved(),
        };
        Settings {
            prefix: self.prefix,
            validity: self.validity,
            extend_every,
            try_next: self.try_next,
            no_loop: self.no_loop,
            fallback_px: self.fallback_px,
            no_caching: self.no_caching,
            scripts: Scripts::new(self.fallback_px),
        }
    }
}

/// What a locker works with: its knobs with nothing left open.
#[derive(Debug)]
pub struct Settings {
    /// What every key starts with, before the colon.
    pub prefix: String,
    /// How long a key stays valid without an extension.
    pub validity: Span,
    /// How often a held key is extended.
    pub extend_every: Span,
    /// How long a waiter sleeps between attempts when it gets no pushes.
    pub try_next: Span,
    /// Whether tracking leaves out our own writes.
    pub no_loop: bool,
    /// Whether keys are set with `PX`.
    pub fallback_px: bool,
    /// Whether tracking is off.
    pub no_caching: bool,
    /// The scripts to run.
    pub scripts: Scripts,
}

/// What [`Settings`] hold, with times in nanoseconds.
#[verifier::ext_equal]
pub struct SettingsView {
    pub prefix: Seq<char>,
    pub validity: nat,
    pub extend_every: nat,
    pub try_next: nat,
    pub no_loop: bool,
    pub fallback_px: bool,
    pub no_caching: bool,
    pub scripts: Scripts,
}

impl View for Settings {
    type V = SettingsView;

    open spec fn view(&self) -> SettingsView {
        SettingsView {
            prefix: self.prefix@,
            validity: self.validity@,
            extend_every: self.extend_every@,
            try_next: self.try_next@,
            no_loop: self.no_loop,
            fallback_px: self.fallback_px,
            no_caching: self.no_caching,
            scripts: self.scripts,
        }
    }
}

/// The settings that a configuration stands for: keys are extended at half their
/// validity unless it says otherwise.
pub open spec fn settings_of(config: ConfigView) -> SettingsView {
    SettingsView {
        prefix: config.prefix,
        validity: config.validity,
        extend_every: match config.extend_every {
            Some(every) => every,
            None => config.validity / 2,
        },
        try_next: config.try_next,
        no_loop: config.no_loop,
        fallback_px: config.fallback_px,
        no_caching: config.no_caching,
        scripts: crate::script::scripts_for(config.fallback_px),
    }
}

/// A configuration that nothing was said about holds the documented defaults.
pub proof fn defaults_are_as_documented(fresh: LockerConfig, default: LockerConfig)
    requires
        call_ensures(LockerConfig::new, (), fresh),
        call_ensures(<LockerConfig as Default>::default, (), default),
    ensures
        fresh@.prefix == "fredlock"@,
        fresh@.validity == 5 * 1_000_000_000,
        fresh@.extend_every is None,
        fresh@.try_next == 20 * 1_000_000,
        !fresh@.no_loop,
        !fresh@.fallback_px,
        !fresh@.no_caching,
        default@ == fresh@,
{
}

/// Whether two configurations agree on everything but the knobs that are left open.
pub open spec fn agree(
    a: ConfigView,
    b: ConfigView,
    prefix: bool,
    validity: bool,
    extend_every: bool,
    try_next: bool,
    flags: bool,
) -> bool {
    &&& prefix ==> a.prefix == b.prefix
    &&& validity ==> a.validity == b.validity
    &&& extend_every ==> a.extend_every == b.extend_every
    &&& try_next ==> a.try_next == b.try_next
    &&& flags ==> a.no_loop == b.no_loop && a.fallback_px == b.fallback_px && a.no_caching
        == b.no_caching
}

/// A text or a time that is set is what the configuration then holds, and the other knobs
/// stay as they were.
pub proof fn values_are_set_alone(
    config: LockerConfig,
    text: &str,
    span: Span,
    prefixed: LockerConfig,
    valid: LockerConfig,
    extended: LockerConfig,
    polled: LockerConfig,
)
    requires
        call_ensures(LockerConfig::key_prefix, (config, text), prefixed),
        call_ensures(LockerConfig::key_validity, (config, span), valid),
        call_ensures(LockerConfig::extend_interval, (config, span), extended),
        call_ensures(LockerConfig::try_next_after, (config, span), polled),
    ensures
        prefixed@.prefix == text@,
        agree(config@, prefixed@, false, true, true, true, true),
        valid@.validity == span@,
        agree(config@, valid@, true, false, true, true, true),
        extended@.extend_every == Some(span@),
        agree(config@, extended@, true, true, false, true, true),
        polled@.try_next == span@,
        agree(config@, polled@, true, true, true, false, true),
{
}

/// A flag that is set is what the configuration then holds, and the other knobs stay as
/// they were.
pub proof fn flags_are_set_alone(
    config: LockerConfig,
    on: bool,
    quiet: LockerConfig,
    fallback: LockerConfig,
    untracked: LockerConfig,
)
    requires
        call_ensures(LockerConfig::no_loop_tracking, (config, on), quiet),
        call_ensures(LockerConfig::fallback_set_px, (config, on), fallback),
        call_ensures(LockerConfig::disable_caching, (config, on), untracked),
    ensures
        agree(config@, quiet@, true, true, true, true, false),
        quiet@.no_loop == on,
        quiet@.fallback_px == config@.fallback_px,
        quiet@.no_caching == config@.no_caching,
        agree(config@, fallback@, true, true, true, true, false),
        fallback@.no_loop == config@.no_loop,
        fallback@.fallback_px == on,
        fallback@.no_caching == config@.no_caching,
        agree(config@, untracked@, true, true, true, true, false),
        untracked@.no_loop == config@.no_loop,
        untracked@.fallback_px == config@.fallback_px,
        untracked@.no_caching == on,
{
}

/// A locker works with the knobs it was given. Without an extend interval it extends
/// twice in the time a lock is valid, up to a nanosecond, so that a held lock is
/// extended before it expires.
pub proof fn settings_follow_the_knobs(config: LockerConfig, settings: Settings)
    requires
        call_ensures(LockerConfig::into_settings, (config,), settings),
    ensures
        settings@.prefix == config@.prefix,
        settings@.validity == config@.validity,
        settings@.try_next == config@.try_next,
        settings@.no_loop == config@.no_loop,
        settings@.fallback_px == config@.fallback_px,
        settings@.no_caching == config@.no_caching,
        config@.extend_every is None ==> {
            &&& 2 * settings@.extend_every <= config@.validity
            &&& config@.validity <= 2 * settings@.extend_every + 1
            &&& config@.validity > 0 ==> settings@.extend_every < settings@.validity
        },
        config@.extend_every matches Some(every) ==> settings@.extend_every == every,
{
}

} // verus!
