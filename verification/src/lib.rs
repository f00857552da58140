//! Distributed locks backed by Redis, with automatic lease extension and push
//! notifications from RESP3 client tracking.
//!
//! A lock is a key with a TTL whose value is a random token. Each acquired lock has
//! an extender, which moves the key's deadline at regular intervals, and which is
//! told as soon as the server pushes an invalidation of the key: so the holder
//! learns the moment someone else takes the lock, rather than at the next
//! extension.
//!
//! This library holds every decision that takes: what is sent to the server, what
//! comes of each reply, who is woken, and when a lock counts as lost. It does not touch
//! the network and does not wait. Whoever drives it keeps the [`Locker`] under a
//! mutex, makes the [`Call`]s it asks for, gives the [`Wake`]s it returns, and hands
//! it what happened.
//!
//! * An acquisition starts with [`Locker::acquire`], [`Locker::try_acquire`] or
//!   [`Locker::acquire_force`], and goes from [`Step`] to [`Step`]; an acquirer who gives
//!   up midway ends it with [`Locker::abandon`].
//! * A held lock is a [`LockGuard`]; its [`Extender`] goes from [`Event`] to
//!   [`Action`].
//! * Pushes go to [`Locker::pushed`]; [`Locker::init`] and [`Locker::close`] begin and
//!   end it all.
//!
//! The module [`laws`] states what holds of lockers as a whole, and [`conduct`] what each
//! operation does.

pub mod acquire;
pub mod conduct;
pub mod config;
pub mod error;
pub mod extender;
pub mod gate;
pub mod given;
pub mod guard;
pub mod init;
pub mod key;
pub mod laws;
pub mod locker;
pub mod script;
pub mod server;
pub mod state;
pub mod text;
pub mod time;
pub mod token;

pub use acquire::{Attempt, Mode, Step};
pub use config::{LockerConfig, Settings};
pub use error::{locker_closed, not_locked, Error, ErrorKind};
pub use extender::{Action, Event, Extender, Wakeup};
pub use gate::{deliver_all, deliver_each, Cancellation, Gate, Wake};
pub use given::Given;
pub use guard::LockGuard;
pub use init::{InitStep, Tracking};
pub use key::{keyname, parse_key};
pub use locker::{Closing, Invalidation, Locker, Push};
pub use script::{Call, Script, Scripts};
pub use time::{deadline_unix_millis, Span, Timestamp};
pub use token::{random_token, short_token};
