//! What the server is taken to do with the scripts, as far as locks are concerned.
//!
//! The scripts run in Redis. This is a mathematical model of it, which nothing
//! executable rests on: it says what the calls of a locker come to, so that what
//! lockers promise each other can be stated and proved.

use vstd::prelude::*;

use crate::script::Script;

verus! {

/// What the server holds under a lock key.
#[verifier::ext_equal]
pub struct Lease {
    /// Whose key it is.
    pub token: Seq<char>,
    /// The Unix time in milliseconds after which the key is gone.
    pub deadline: int,
}

/// What a script replies.
pub enum Reply {
    /// `OK`.
    Done,
    /// Nothing.
    Nil,
    /// A number.
    Number(int),
    /// An error: the expiry is not one that the server takes.
    Refused,
}

/// The keys of a server.
pub type Store = Map<Seq<char>, Lease>;

/// The token of whoever holds a key at a time.
pub open spec fn holder(store: Store, key: Seq<char>, at: int) -> Option<Seq<char>> {
    if store.contains_key(key) && at <= store[key].deadline {
        Some(store[key].token)
    } else {
        None
    }
}

/// Whether the server, at a time, takes the expiry that a call sets a key with: a
/// positive number, and a deadline that it can hold. The other scripts set none.
pub open spec fn accepts(call: crate::script::CallView, at: int) -> bool {
    let number = crate::text::decimal_value(call.args[1]);
    match call.script {
        Script::AcquireAt | Script::ForceAt => 0 < number <= i64::MAX,
        Script::AcquireMs | Script::ForceMs => 0 < number && at + number <= i64::MAX,
        Script::Extend | Script::Del => true,
    }
}

/// The keys, and the reply, after a call that the server runs at a time. Whether the
/// expiry is one that it takes is looked at before who holds the key. A key whose
/// deadline is moved to the past is gone.
pub open spec fn evaluate(store: Store, call: crate::script::CallView, at: int) -> (Store, Reply) {
    let token = call.args[0];
    let number = crate::text::decimal_value(call.args[1]);
    if !accepts(call, at) {
        (store, Reply::Refused)
    } else {
        match call.script {
            Script::AcquireAt => if holder(store, call.key, at) is Some {
                (store, Reply::Nil)
            } else {
                (store.insert(call.key, Lease { token, deadline: number }), Reply::Done)
            },
            Script::AcquireMs => if holder(store, call.key, at) is Some {
                (store, Reply::Nil)
            } else {
                (store.insert(call.key, Lease { token, deadline: at + number }), Reply::Done)
            },
            Script::ForceAt => (
                store.insert(call.key, Lease { token, deadline: number }),
                Reply::Done,
            ),
            Script::ForceMs => (
                store.insert(call.key, Lease { token, deadline: at + number }),
                Reply::Done,
            ),
            Script::Extend => if holder(store, call.key, at) != Some(token) {
                (store, Reply::Number(0))
            } else if number <= at {
                (store.remove(call.key), Reply::Number(1))
            } else {
                (store.insert(call.key, Lease { token, deadline: number }), Reply::Number(1))
            },
            Script::Del => if holder(store, call.key, at) == Some(token) {
                (store.remove(call.key), Reply::Number(1))
            } else {
                (store, Reply::Number(0))
            },
        }
    }
}

/// The keys after a row of calls, each at its time.
pub open spec fn run(store: Store, history: Seq<(crate::script::CallView, int)>) -> Store
    decreases history.len(),
{
    if history.len() == 0 {
        store
    } else {
        let (call, at) = history.last();
        evaluate(run(store, history.drop_last()), call, at).0
    }
}

/// Whether a client that got the reply to an acquisition hands on this value.
pub open spec fn read_as_value(
    reply: Reply,
    value: Result<Option<String>, crate::error::Error>,
) -> bool {
    match reply {
        Reply::Done => value matches Ok(Some(_)),
        Reply::Nil => value matches Ok(None),
        Reply::Number(_) => false,
        Reply::Refused => value is Err,
    }
}

/// Whether a client that got the reply to an extension hands on this number.
pub open spec fn read_as_number(reply: Reply, number: Result<i64, crate::error::Error>) -> bool {
    reply matches Reply::Number(n) && number matches Ok(m) && m == n
}

} // verus!
