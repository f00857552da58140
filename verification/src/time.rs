//! Spans of time and points in time, to the nanosecond.

use vstd::prelude::*;

use crate::error::{before_epoch, Error, ErrorKind};

verus! {

/// Nanoseconds in a second.
pub const NANOS_PER_SEC: u32 = 1_000_000_000;

/// A length of time: whole seconds and the nanoseconds beyond them.
#[derive(Clone, Copy, Debug, PartialEq, Eq)]
pub struct Span {
    secs: u64,
    nanos: u32,
}

impl View for Span {
    type V = nat;

    /// The length in nanoseconds.
    closed spec fn view(&self) -> nat {
        (self.secs * NANOS_PER_SEC + self.nanos) as nat
    }
}

/// The whole milliseconds in a number of nanoseconds.
pub open spec fn whole_millis(nanos: nat) -> nat {
    nanos / 1_000_000
}

impl Span {
    #[verifier::type_invariant]
    spec fn below_a_second_beyond(self) -> bool {
        self.nanos < NANOS_PER_SEC
    }

    /// `secs` seconds and `nanos` nanoseconds.
    pub fn new(secs: u64, nanos: u32) -> (span: Self)
        requires
            nanos < NANOS_PER_SEC,
        ensures
            span@ == secs * NANOS_PER_SEC + nanos,
    {
        Span { secs, nanos }
    }

    /// `secs` seconds.
    pub fn from_secs(secs: u64) -> (span: Self)
        ensures
            span@ == secs * NANOS_PER_SEC,
    {
        Span { secs, nanos: 0 }
    }

    /// `millis` milliseconds.
    pub fn from_millis(millis: u64) -> (span: Self)
        ensures
            span@ == millis * 1_000_000,
    {
        let rest: u64 = millis % 1_000;
        Span { secs: millis / 1_000, nanos: rest as u32 * 1_000_000 }
    }

    /// The whole seconds.
    pub fn as_secs(&self) -> (secs: u64)
        ensures
            secs == self@ / NANOS_PER_SEC as nat,
    {
        proof {
            use_type_invariant(self);
        }
        self.secs
    }

    /// The nanoseconds beyond the whole seconds.
    pub fn subsec_nanos(&self) -> (nanos: u32)
        ensures
            nanos == self@ % NANOS_PER_SEC as nat,
            nanos < NANOS_PER_SEC,
    {
        proof {
            use_type_invariant(self);
        }
        self.nanos
    }

    /// The whole milliseconds.
    pub fn as_millis(&self) -> (millis: u128)
        ensures
            millis == whole_millis(self@),
    {
        proof {
            use_type_invariant(self);
        }
        let secs: u128 = self.secs as u128;
        let nanos: u128 = self.nanos as u128;
        secs * 1_000 + nanos / 1_000_000
    }

    /// Half of it, rounded down to a nanosecond.
    pub fn halved(&self) -> (half: Self)
        ensures
            half@ == self@ / 2,
    {
        proof {
            use_type_invariant(self);
        }
        let nanos: u32 = if self.secs % 2 == 1 {
            (self.nanos + NANOS_PER_SEC) / 2
        } else {
            self.nanos / 2
        };
        Span { secs: self.secs / 2, nanos }
    }
}

/// A point in time: whole seconds since the Unix epoch, negative before it, and
/// the nanoseconds beyond them.
#[derive(Clone, Copy, Debug, PartialEq, Eq)]
pub struct Timestamp {
    secs: i64,
    nanos: u32,
}

impl View for Timestamp {
    type V = int;

    /// The distance from the Unix epoch in nanoseconds.
    closed spec fn view(&self) -> int {
        self.secs * NANOS_PER_SEC + self.nanos
    }
}

/// Whether a point in time, in nanoseconds from the epoch, is one that a
/// [`Timestamp`] can hold.
pub open spec fn in_range(nanos: int) -> bool {
    i64::MIN * NANOS_PER_SEC <= nanos < (i64::MAX + 1) * NANOS_PER_SEC
}

/// A number wrapped around into the range of `i64`.
pub open spec fn wrapped_to_i64(n: int) -> int {
    (n + 0x8000_0000_0000_0000) % 0x1_0000_0000_0000_0000 - 0x8000_0000_0000_0000
}

/// The Unix time in milliseconds of a point in time, given in nanoseconds from
/// the epoch: none before the epoch, and wrapped around where it exceeds `i64`.
pub open spec fn unix_millis(nanos: int) -> Option<int> {
    if nanos < 0 {
        None
    } else {
        Some(wrapped_to_i64(whole_millis(nanos as nat) as int))
    }
}

impl Timestamp {
    #[verifier::type_invariant]
    spec fn below_a_second_beyond(self) -> bool {
        self.nanos < NANOS_PER_SEC
    }

    /// The point `nanos` nanoseconds after `secs` whole seconds from the epoch.
    pub fn new(secs: i64, nanos: u32) -> (at: Self)
        requires
            nanos < NANOS_PER_SEC,
        ensures
            at@ == secs * NANOS_PER_SEC + nanos,
    {
        Timestamp { secs, nanos }
    }

    /// The point `span` after the epoch.
    pub fn after_epoch(span: Span) -> (at: Self)
        requires
            in_range(span@ as int),
        ensures
            at@ == span@,
    {
        proof {
            use_type_invariant(&span);
        }
        Timestamp { secs: span.secs as i64, nanos: span.nanos }
    }

    /// The point `span` before the epoch.
    pub fn ahead_of_epoch(span: Span) -> (at: Self)
        requires
            in_range(-span@),
        ensures
            at@ == -span@,
    {
        proof {
            use_type_invariant(&span);
        }
        if span.nanos == 0 {
            Timestamp { secs: (-(span.secs as i128)) as i64, nanos: 0 }
        } else {
            Timestamp {
                secs: (-(span.secs as i128) - 1) as i64,
                nanos: NANOS_PER_SEC - span.nanos,
            }
        }
    }

    /// Whether the point `span` later can be held.
    pub fn can_add(&self, span: Span) -> (fits: bool)
        ensures
            fits == in_range(self@ + span@),
    {
        proof {
            use_type_invariant(self);
            use_type_invariant(&span);
        }
        let carry: i128 = if self.nanos + span.nanos >= NANOS_PER_SEC { 1 } else { 0 };
        self.secs as i128 + span.secs as i128 + carry <= i64::MAX as i128
    }

    /// The point `span` later.
    pub fn plus(&self, span: Span) -> (later: Self)
        requires
            in_range(self@ + span@),
        ensures
            later@ == self@ + span@,
    {
        proof {
            use_type_invariant(self);
            use_type_invariant(&span);
        }
        let nanos: u32 = self.nanos + span.nanos;
        if nanos >= NANOS_PER_SEC {
            Timestamp {
                secs: (self.secs as i128 + span.secs as i128 + 1) as i64,
                nanos: nanos - NANOS_PER_SEC,
            }
        } else {
            Timestamp { secs: (self.secs as i128 + span.secs as i128) as i64, nanos }
        }
    }
}

proof fn lemma_cast_wraps(n: u128)
    ensures
        n as i64 == wrapped_to_i64(n as int),
{
    assert(n as i64 == (n + 0x8000_0000_0000_0000) % 0x1_0000_0000_0000_0000
        - 0x8000_0000_0000_0000) by (bit_vector);
}

/// A point in time as a deadline for Redis: the Unix time in whole milliseconds.
pub fn deadline_unix_millis(when: Timestamp) -> (deadline: Result<i64, Error>)
    ensures
        match deadline {
            Ok(millis) => unix_millis(when@) == Some(millis as int),
            Err(error) => unix_millis(when@) is None && error.says(
                ErrorKind::Unknown,
                crate::error::before_epoch_text(),
            ),
        },
{
    proof {
        use_type_invariant(&when);
    }
    if when.secs < 0 {
        return Err(before_epoch());
    }
    let secs: u128 = when.secs as u128;
    let nanos: u128 = when.nanos as u128;
    let millis: u128 = secs * 1_000 + nanos / 1_000_000;
    proof {
        lemma_cast_wraps(millis);
    }
    Ok(millis as i64)
}

/// A span consists of the seconds and nanoseconds it was made of.
pub proof fn span_is_made_of_its_parts(
    secs: u64,
    nanos: u32,
    span: Span,
    whole: u64,
    rest: u32,
    millis: u64,
    of_secs: Span,
    of_millis: Span,
)
    requires
        nanos < 1_000_000_000,
        call_ensures(Span::new, (secs, nanos), span),
        call_ensures(Span::as_secs, (&span,), whole),
        call_ensures(Span::subsec_nanos, (&span,), rest),
        call_ensures(Span::from_secs, (secs,), of_secs),
        call_ensures(Span::from_millis, (millis,), of_millis),
    ensures
        span@ == secs * 1_000_000_000 + nanos,
        whole == secs,
        rest == nanos,
        of_secs@ + nanos == span@,
        of_millis@ == millis * 1_000_000,
{
}

/// The milliseconds of a span are the whole ones in it, and two of its halves make it up,
/// to a nanosecond.
pub proof fn span_is_divided_fairly(span: Span, millis: u128, half: Span)
    requires
        call_ensures(Span::as_millis, (&span,), millis),
        call_ensures(Span::halved, (&span,), half),
    ensures
        millis * 1_000_000 <= span@ < (millis + 1) * 1_000_000,
        2 * half@ <= span@ <= 2 * half@ + 1,
{
}

/// A time and a span add up, just where the sum can be held.
pub proof fn times_add_up(now: Timestamp, span: Span, fits: bool, later: Timestamp)
    requires
        call_ensures(Timestamp::can_add, (&now, span), fits),
        call_ensures(Timestamp::plus, (&now, span), later),
    ensures
        fits <==> -0x8000_0000_0000_0000 * 1_000_000_000 <= now@ + span@
            && now@ + span@ < 0x8000_0000_0000_0000 * 1_000_000_000,
        later@ - now@ == span@,
{
}

/// A time is where it was said to be, before or after the epoch.
pub proof fn times_count_from_the_epoch(
    secs: i64,
    nanos: u32,
    at: Timestamp,
    span: Span,
    after: Timestamp,
    ahead: Timestamp,
)
    requires
        nanos < 1_000_000_000,
        call_ensures(Timestamp::new, (secs, nanos), at),
        call_ensures(Timestamp::after_epoch, (span,), after),
        call_ensures(Timestamp::ahead_of_epoch, (span,), ahead),
    ensures
        at@ == secs * 1_000_000_000 + nanos,
        after@ == span@,
        after@ + ahead@ == 0,
{
}

/// A deadline is the Unix time in whole milliseconds, cut down to 64 bits where it has
/// more. Only a time before the epoch has none.
pub proof fn deadline_counts_whole_millis(when: Timestamp, deadline: Result<i64, Error>)
    requires
        call_ensures(deadline_unix_millis, (when,), deadline),
    ensures
        deadline is Ok <==> 0 <= when@,
        deadline matches Ok(millis) ==> (when@ / 1_000_000 - millis)
            % 0x1_0000_0000_0000_0000 == 0,
        deadline matches Ok(millis) ==> when@ < 0x8000_0000_0000_0000 * 1_000_000 ==> millis
            * 1_000_000 <= when@ < (millis + 1) * 1_000_000,
        deadline matches Err(error) ==> error.kind == ErrorKind::Unknown,
{
}

} // verus!
