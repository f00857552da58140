//! The Lua scripts that a locker runs on the server, and the calls it makes of
//! them.

use vstd::prelude::*;

use crate::error::{Error, ErrorKind};
use crate::text::{write_signed, write_unsigned};
use crate::time::{deadline_unix_millis, Span, Timestamp};

verus! {

// The `GET` after each write is what arms client tracking on the key: the server
// only pushes invalidations for keys that the connection has read.

/// `SET NX PXAT`.
pub const ACQUIRE_AT_LUA: &'static str = "
local r = redis.call(\"SET\", KEYS[1], ARGV[1], \"NX\", \"PXAT\", ARGV[2]);
redis.call(\"GET\", KEYS[1]);
return r;
";

/// `SET NX PX`, for Redis before 6.2.
pub const ACQUIRE_MS_LUA: &'static str = "
local r = redis.call(\"SET\", KEYS[1], ARGV[1], \"NX\", \"PX\", ARGV[2]);
redis.call(\"GET\", KEYS[1]);
return r;
";

/// Takeover: writes whoever holds the key.
pub const FORCE_AT_LUA: &'static str = "
local r = redis.call(\"SET\", KEYS[1], ARGV[1], \"PXAT\", ARGV[2]);
redis.call(\"GET\", KEYS[1]);
return r;
";

/// Takeover, for Redis before 6.2.
pub const FORCE_MS_LUA: &'static str = "
local r = redis.call(\"SET\", KEYS[1], ARGV[1], \"PX\", ARGV[2]);
redis.call(\"GET\", KEYS[1]);
return r;
";

/// Renews the deadline if the value still is our token.
pub const EXTEND_LUA: &'static str = "
if redis.call(\"GET\", KEYS[1]) == ARGV[1] then
  local r = redis.call(\"PEXPIREAT\", KEYS[1], ARGV[2]);
  redis.call(\"GET\", KEYS[1]);
  return r;
end;
return 0;
";

/// Deletes the key if the value still is our token.
pub const DEL_LUA: &'static str = "
if redis.call(\"GET\", KEYS[1]) == ARGV[1] then
  return redis.call(\"DEL\", KEYS[1]);
end;
return 0;
";

/// One of the scripts.
#[derive(Clone, Copy, Debug, PartialEq, Eq, Structural)]
pub enum Script {
    /// Takes a free key until a deadline.
    AcquireAt,
    /// Takes a free key for a number of milliseconds.
    AcquireMs,
    /// Takes a key until a deadline, whoever holds it.
    ForceAt,
    /// Takes a key for a number of milliseconds, whoever holds it.
    ForceMs,
    /// Moves the deadline of a key that we hold.
    Extend,
    /// Deletes a key that we hold.
    Del,
}

impl Script {
    /// The script's text.
    pub open spec fn text(self) -> Seq<char> {
        match self {
            Script::AcquireAt => ACQUIRE_AT_LUA@,
            Script::AcquireMs => ACQUIRE_MS_LUA@,
            Script::ForceAt => FORCE_AT_LUA@,
            Script::ForceMs => FORCE_MS_LUA@,
            Script::Extend => EXTEND_LUA@,
            Script::Del => DEL_LUA@,
        }
    }

    /// The script's text.
    pub fn lua(&self) -> (lua: &'static str)
        ensures
            lua@ == self.text(),
    {
        match self {
            Script::AcquireAt => ACQUIRE_AT_LUA,
            Script::AcquireMs => ACQUIRE_MS_LUA,
            Script::ForceAt => FORCE_AT_LUA,
            Script::ForceMs => FORCE_MS_LUA,
            Script::Extend => EXTEND_LUA,
            Script::Del => DEL_LUA,
        }
    }
}

/// The scripts that one locker uses.
#[derive(Clone, Copy, Debug, PartialEq, Eq, Structural)]
pub struct Scripts {
    /// Takes a free key.
    pub acquire: Script,
    /// Takes a key, whoever holds it.
    pub force: Script,
    /// Moves the deadline of a held key.
    pub extend: Script,
    /// Deletes a held key.
    pub del: Script,
}

/// The scripts of a locker that does or does not have to do without `PXAT`.
pub open spec fn scripts_for(fallback_px: bool) -> Scripts {
    Scripts {
        acquire: if fallback_px {
            Script::AcquireMs
        } else {
            Script::AcquireAt
        },
        force: if fallback_px {
            Script::ForceMs
        } else {
            Script::ForceAt
        },
        extend: Script::Extend,
        del: Script::Del,
    }
}

impl Scripts {
    /// The scripts of a locker that does or does not have to do without `PXAT`.
    pub fn new(fallback_px: bool) -> (scripts: Self)
        ensures
            scripts == scripts_for(fallback_px),
    {
        Scripts {
            acquire: if fallback_px {
                Script::AcquireMs
            } else {
                Script::AcquireAt
            },
            force: if fallback_px {
                Script::ForceMs
            } else {
                Script::ForceAt
            },
            extend: Script::Extend,
            del: Script::Del,
        }
    }
}

/// One evaluation of a script: `EVALSHA` with one key.
#[derive(Debug, PartialEq, Eq)]
pub struct Call {
    /// The script.
    pub script: Script,
    /// `KEYS[1]`.
    pub key: String,
    /// `ARGV`.
    pub args: Vec<String>,
}

/// What a [`Call`] says.
#[verifier::ext_equal]
pub struct CallView {
    pub script: Script,
    pub key: Seq<char>,
    pub args: Seq<Seq<char>>,
}

impl View for Call {
    type V = CallView;

    open spec fn view(&self) -> CallView {
        CallView {
            script: self.script,
            key: self.key@,
            args: self.args@.map_values(|arg: String| arg@),
        }
    }
}

/// What an acquisition passes as `ARGV[2]`: the validity in milliseconds for the
/// `PX` scripts, the deadline `validity` after `now` for the others. None where
/// that deadline is before the Unix epoch.
pub open spec fn acquire_arg(fallback_px: bool, validity: nat, now: int) -> Option<Seq<char>> {
    if fallback_px {
        Some(crate::text::decimal(crate::time::whole_millis(validity)))
    } else {
        extend_arg(validity, now)
    }
}

/// What an extension passes as `ARGV[2]`: the deadline `validity` after `now`, which
/// is what `PEXPIREAT` takes on every version of Redis. None where that deadline
/// is before the Unix epoch.
pub open spec fn extend_arg(validity: nat, now: int) -> Option<Seq<char>> {
    match crate::time::unix_millis(now + validity) {
        Some(millis) => Some(crate::text::signed_decimal(millis)),
        None => None,
    }
}

/// The second argument of an extension made at `now`.
pub(crate) fn write_extend_arg(validity: Span, now: Timestamp) -> (arg: Result<String, Error>)
    requires
        crate::time::in_range(now@ + validity@),
    ensures
        match arg {
            Ok(arg) => extend_arg(validity@, now@) == Some(arg@),
            Err(error) => extend_arg(validity@, now@) is None && error.says(
                ErrorKind::Unknown,
                crate::error::before_epoch_text(),
            ),
        },
{
    match deadline_unix_millis(now.plus(validity)) {
        Ok(millis) => Ok(write_signed(millis)),
        Err(error) => Err(error),
    }
}

/// The second argument of an acquisition made at `now`.
pub(crate) fn write_acquire_arg(fallback_px: bool, validity: Span, now: Timestamp) -> (arg: Result<
    String,
    Error,
>)
    requires
        crate::time::in_range(now@ + validity@),
    ensures
        match arg {
            Ok(arg) => acquire_arg(fallback_px, validity@, now@) == Some(arg@),
            Err(error) => acquire_arg(fallback_px, validity@, now@) is None && error.says(
                ErrorKind::Unknown,
                crate::error::before_epoch_text(),
            ),
        },
{
    if fallback_px {
        Ok(write_unsigned(validity.as_millis()))
    } else {
        write_extend_arg(validity, now)
    }
}

/// The text of a script that sets a key: only if it is free or in any case, until a time or
/// for some milliseconds. It then reads the key, which arms tracking, and replies
/// what came of it.
pub open spec fn setting_text(only_free: bool, until: bool) -> Seq<char> {
    "\nlocal r = redis.call(\"SET\", KEYS[1], ARGV[1], "@ + (if only_free {
        "\"NX\", "@
    } else {
        ""@
    }) + (if until {
        "\"PXAT\""@
    } else {
        "\"PX\""@
    }) + ", ARGV[2]);\nredis.call(\"GET\", KEYS[1]);\nreturn r;\n"@
}

/// The text of a script that does something to a key only if its value is our token, and
/// replies 0 otherwise.
pub open spec fn guarded_text(body: Seq<char>) -> Seq<char> {
    "\nif redis.call(\"GET\", KEYS[1]) == ARGV[1] then\n"@ + body + "end;\nreturn 0;\n"@
}

proof fn lemma_setting_texts()
    ensures
        ACQUIRE_AT_LUA@ == setting_text(true, true),
        ACQUIRE_MS_LUA@ == setting_text(true, false),
        FORCE_AT_LUA@ == setting_text(false, true),
        FORCE_MS_LUA@ == setting_text(false, false),
{
    reveal_strlit("\nlocal r = redis.call(\"SET\", KEYS[1], ARGV[1], ");
    reveal_strlit("\"NX\", ");
    reveal_strlit("");
    reveal_strlit("\"PXAT\"");
    reveal_strlit("\"PX\"");
    reveal_strlit(", ARGV[2]);\nredis.call(\"GET\", KEYS[1]);\nreturn r;\n");
    assert(ACQUIRE_AT_LUA@ =~= setting_text(true, true)) by {
        reveal_strlit("\nlocal r = redis.call(\"SET\", KEYS[1], ARGV[1], \"NX\", \"PXAT\", ARGV[2]);\nredis.call(\"GET\", KEYS[1]);\nreturn r;\n");
    }
    assert(ACQUIRE_MS_LUA@ =~= setting_text(true, false)) by {
        reveal_strlit("\nlocal r = redis.call(\"SET\", KEYS[1], ARGV[1], \"NX\", \"PX\", ARGV[2]);\nredis.call(\"GET\", KEYS[1]);\nreturn r;\n");
    }
    assert(FORCE_AT_LUA@ =~= setting_text(false, true)) by {
        reveal_strlit("\nlocal r = redis.call(\"SET\", KEYS[1], ARGV[1], \"PXAT\", ARGV[2]);\nredis.call(\"GET\", KEYS[1]);\nreturn r;\n");
    }
    assert(FORCE_MS_LUA@ =~= setting_text(false, false)) by {
        reveal_strlit("\nlocal r = redis.call(\"SET\", KEYS[1], ARGV[1], \"PX\", ARGV[2]);\nredis.call(\"GET\", KEYS[1]);\nreturn r;\n");
    }
}

proof fn lemma_guarded_texts()
    ensures
        EXTEND_LUA@ == guarded_text(
            "  local r = redis.call(\"PEXPIREAT\", KEYS[1], ARGV[2]);\n  redis.call(\"GET\", KEYS[1]);\n  return r;\n"@,
        ),
        DEL_LUA@ == guarded_text("  return redis.call(\"DEL\", KEYS[1]);\n"@),
{
    reveal_strlit("\nif redis.call(\"GET\", KEYS[1]) == ARGV[1] then\n");
    reveal_strlit("end;\nreturn 0;\n");
    assert(EXTEND_LUA@ =~= guarded_text(
        "  local r = redis.call(\"PEXPIREAT\", KEYS[1], ARGV[2]);\n  redis.call(\"GET\", KEYS[1]);\n  return r;\n"@,
    )) by {
        reveal_strlit(
            "  local r = redis.call(\"PEXPIREAT\", KEYS[1], ARGV[2]);\n  redis.call(\"GET\", KEYS[1]);\n  return r;\n",
        );
        reveal_strlit("\nif redis.call(\"GET\", KEYS[1]) == ARGV[1] then\n  local r = redis.call(\"PEXPIREAT\", KEYS[1], ARGV[2]);\n  redis.call(\"GET\", KEYS[1]);\n  return r;\nend;\nreturn 0;\n");
    }
    assert(DEL_LUA@ =~= guarded_text("  return redis.call(\"DEL\", KEYS[1]);\n"@)) by {
        reveal_strlit("  return redis.call(\"DEL\", KEYS[1]);\n");
        reveal_strlit("\nif redis.call(\"GET\", KEYS[1]) == ARGV[1] then\n  return redis.call(\"DEL\", KEYS[1]);\nend;\nreturn 0;\n");
    }
}

/// A locker takes keys with `NX`, unless it takes them over, until a deadline where it
/// has `PXAT`. It extends and deletes only keys that hold its own token.
pub proof fn scripts_do_what_they_are_for(
    fallback_px: bool,
    scripts: Scripts,
    acquire: &str,
    force: &str,
    extend: &str,
    del: &str,
)
    requires
        call_ensures(Scripts::new, (fallback_px,), scripts),
        call_ensures(Script::lua, (&scripts.acquire,), acquire),
        call_ensures(Script::lua, (&scripts.force,), force),
        call_ensures(Script::lua, (&scripts.extend,), extend),
        call_ensures(Script::lua, (&scripts.del,), del),
    ensures
        acquire@ == setting_text(true, !fallback_px),
        force@ == setting_text(false, !fallback_px),
        extend@ == guarded_text(
            "  local r = redis.call(\"PEXPIREAT\", KEYS[1], ARGV[2]);\n  redis.call(\"GET\", KEYS[1]);\n  return r;\n"@,
        ),
        del@ == guarded_text("  return redis.call(\"DEL\", KEYS[1]);\n"@),
{
    lemma_setting_texts();
    lemma_guarded_texts();
}

} // verus!
