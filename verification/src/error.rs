//! The errors that locker operations end in.

use vstd::prelude::*;

verus! {

/// What went wrong, as far as the locker tells failures apart.
#[derive(Clone, Copy, Debug, PartialEq, Eq, Structural)]
pub enum ErrorKind {
    /// The locker or its client was not set up for the call.
    Config,
    /// The locker was closed.
    Canceled,
    /// The lock is held by another acquirer.
    NotFound,
    /// A failure of no particular kind.
    Unknown,
    /// A failure of the client or the server that is none of the above.
    Other,
}

/// A failed locker operation.
#[derive(Clone, Debug, PartialEq, Eq)]
pub struct Error {
    /// What went wrong.
    pub kind: ErrorKind,
    /// The same in words.
    pub details: String,
}

impl Error {
    /// An error of the given kind.
    pub fn new(kind: ErrorKind, details: &str) -> (error: Self)
        ensures
            error.kind == kind,
            error.details@ == details@,
    {
        Error { kind, details: details.to_owned() }
    }

    /// What went wrong.
    pub fn kind(&self) -> (kind: ErrorKind)
        ensures
            kind == self.kind,
    {
        self.kind
    }

    /// Whether this is the error with the given kind and text.
    pub open spec fn says(self, kind: ErrorKind, details: Seq<char>) -> bool {
        self.kind == kind && self.details@ == details
    }
}

/// The text of [`locker_closed`].
pub open spec fn closed_text() -> Seq<char> {
    "Locker is closed"@
}

/// The text of [`not_locked`].
pub open spec fn not_locked_text() -> Seq<char> {
    "Lock is held by another acquirer"@
}

/// The text of [`not_connected`].
pub open spec fn not_connected_text() -> Seq<char> {
    "Locker requires a connected client; call Client::init() first."@
}

/// The text of [`before_epoch`].
pub open spec fn before_epoch_text() -> Seq<char> {
    "system clock before UNIX epoch: second time provided was later than self"@
}

/// The answer to every request made of a closed locker.
pub fn locker_closed() -> (error: Error)
    ensures
        error.says(ErrorKind::Canceled, closed_text()),
{
    Error::new(ErrorKind::Canceled, "Locker is closed")
}

/// The answer to an attempt on a lock that someone else holds.
pub fn not_locked() -> (error: Error)
    ensures
        error.says(ErrorKind::NotFound, not_locked_text()),
{
    Error::new(ErrorKind::NotFound, "Lock is held by another acquirer")
}

/// The answer to an `init` before the client is connected.
pub(crate) fn not_connected() -> (error: Error)
    ensures
        error.says(ErrorKind::Config, not_connected_text()),
{
    Error::new(
        ErrorKind::Config,
        "Locker requires a connected client; call Client::init() first.",
    )
}

/// The failure to write a time before the Unix epoch as a deadline.
pub(crate) fn before_epoch() -> (error: Error)
    ensures
        error.says(ErrorKind::Unknown, before_epoch_text()),
{
    Error::new(
        ErrorKind::Unknown,
        "system clock before UNIX epoch: second time provided was later than self",
    )
}

/// Each failure that a locker itself reports has its own kind, and says what happened.
pub proof fn failures_are_told_apart(closed: Error, held: Error, kind: ErrorKind)
    requires
        call_ensures(locker_closed, (), closed),
        call_ensures(not_locked, (), held),
        call_ensures(Error::kind, (&closed,), kind),
    ensures
        kind == ErrorKind::Canceled,
        closed.kind == ErrorKind::Canceled,
        closed.details@ == "Locker is closed"@,
        held.kind == ErrorKind::NotFound,
        held.details@ == "Lock is held by another acquirer"@,
{
}

/// Whoever makes an error decides its kind and its words.
pub proof fn errors_say_what_they_were_made_of(kind: ErrorKind, details: &str, error: Error)
    requires
        call_ensures(Error::new, (kind, details), error),
    ensures
        error.kind == kind,
        error.details@ == details@,
{
}

} // verus!
