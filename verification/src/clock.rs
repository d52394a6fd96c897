//! Moments and times of day.

use vstd::prelude::*;
use crate::calendar::{
    display_moment, has_date, moment_text, DAY_SECONDS, FIRST_SECOND, LAST_SECOND,
};

verus! {

/// The nanoseconds of a second.
pub const NANOS: i128 = 1000000000;

/// A moment that has a calendar date, counted from the Unix epoch in seconds and
/// nanoseconds.
#[derive(Debug, Clone, Copy, PartialEq, Eq, Structural)]
pub struct Moment {
    secs: i64,
    nanos: u32,
}

impl View for Moment {
    type V = int;

    /// The nanoseconds since the Unix epoch.
    open spec fn view(&self) -> int {
        self.second() * NANOS + self.nano()
    }
}

/// Whether a count of seconds and nanoseconds is a moment with a calendar date.
pub open spec fn is_dated(secs: int, nanos: int) -> bool {
    FIRST_SECOND <= secs <= LAST_SECOND && 0 <= nanos < NANOS
}

impl Moment {
    /// The whole seconds since the Unix epoch.
    pub closed spec fn second(self) -> int {
        self.secs as int
    }

    /// The nanoseconds behind the last whole second.
    pub closed spec fn nano(self) -> int {
        self.nanos as int
    }

    /// The moment with the given seconds and nanoseconds.
    pub closed spec fn at(secs: i64, nanos: u32) -> Moment {
        Moment { secs, nanos }
    }

    #[verifier::type_invariant]
    spec fn well_formed(self) -> bool {
        is_dated(self.secs as int, self.nanos as int)
    }

    /// The moment with the given seconds and nanoseconds, where it has a date.
    pub fn new(secs: i64, nanos: u32) -> (r: Option<Moment>)
        ensures
            match r {
                Some(m) => {
                    &&& is_dated(secs as int, nanos as int)
                    &&& m == Moment::at(secs, nanos)
                    &&& m.second() == secs
                    &&& m.nano() == nanos
                },
                None => !is_dated(secs as int, nanos as int),
            },
    {
        if has_date(secs) && nanos < 1000000000 {
            Some(Moment { secs, nanos })
        } else {
            None
        }
    }

    /// The Unix epoch.
    pub fn epoch() -> (m: Moment)
        ensures
            m == Moment::at(0, 0),
            m@ == 0,
    {
        Moment { secs: 0, nanos: 0 }
    }

    /// The moment at which a message was sent, from its Unix time in seconds; the epoch
    /// where no date can be given to it.
    pub fn of_message(secs: i64) -> (m: Moment)
        ensures
            m == Moment::at(sent_second(secs), 0),
            m.second() == sent_second(secs),
    {
        if has_date(secs) {
            Moment { secs, nanos: 0 }
        } else {
            Moment::epoch()
        }
    }

    /// The whole seconds since the Unix epoch.
    pub fn secs(&self) -> (secs: i64)
        ensures
            secs == self.second(),
            FIRST_SECOND <= secs <= LAST_SECOND,
    {
        proof {
            use_type_invariant(self);
        }
        self.secs
    }

    /// The nanoseconds behind the last whole second.
    pub fn nanos(&self) -> (nanos: u32)
        ensures
            nanos == self.nano(),
            nanos < NANOS,
    {
        proof {
            use_type_invariant(self);
        }
        self.nanos
    }

    /// The nanoseconds from an earlier moment to this one; negative for a later one.
    pub fn since(&self, earlier: &Moment) -> (nanos: i128)
        ensures
            nanos == self@ - earlier@,
            nanos > i128::MIN,
    {
        (self.secs as i128 * NANOS + self.nanos as i128) - (earlier.secs as i128 * NANOS
            + earlier.nanos as i128)
    }

    /// Date, time of day and offset of the moment, at the given offset from UTC.
    pub fn local_text(&self, offset: i32) -> (s: String)
        requires
            -DAY_SECONDS < offset < DAY_SECONDS,
        ensures
            s@ == moment_text(self.second(), self.nano(), offset as int),
    {
        display_moment(self.secs(), self.nanos(), offset)
    }
}

/// The second that a message counts as sent in: the epoch where no date can be given
/// to its Unix time.
pub open spec fn sent_second(secs: i64) -> i64 {
    if FIRST_SECOND <= secs <= LAST_SECOND {
        secs
    } else {
        0
    }
}

/// The parts of a moment that is put together are those it is put together from.
pub proof fn law_moment_parts(secs: i64, nanos: u32)
    ensures
        Moment::at(secs, nanos).second() == secs,
        Moment::at(secs, nanos).nano() == nanos,
        Moment::at(secs, nanos)@ == secs * 1000000000 + nanos,
{
}

/// Whether fewer than `secs` seconds make up the span.
pub open spec fn shorter_than(span: int, secs: int) -> bool {
    span < secs * NANOS
}

/// Whether more than `secs` seconds make up the span.
pub open spec fn longer_than(span: int, secs: int) -> bool {
    span > secs * NANOS
}

/// Whether fewer than `secs` seconds make up the span.
pub fn is_shorter(span: i128, secs: i64) -> (r: bool)
    ensures
        r == shorter_than(span as int, secs as int),
{
    span < secs as i128 * NANOS
}

/// Whether more than `secs` seconds make up the span.
pub fn is_longer(span: i128, secs: i64) -> (r: bool)
    ensures
        r == longer_than(span as int, secs as int),
{
    span > secs as i128 * NANOS
}

/// A time of day, to the minute.
#[derive(Debug, Clone, Copy, PartialEq, Eq, Structural)]
pub struct TimeOfDay {
    pub hour: u32,
    pub minute: u32,
}

/// Whether the list holds the time.
pub fn is_due(times: &Vec<TimeOfDay>, now: TimeOfDay) -> (r: bool)
    ensures
        r == times@.contains(now),
{
    let mut i: usize = 0;
    while i < times.len()
        invariant
            i <= times.len(),
            forall|k: int| 0 <= k < i ==> times@[k] != now,
        decreases times.len() - i,
    {
        if times[i] == now {
            return true;
        }
        i += 1;
    }
    false
}

/// Spans are compared in whole seconds of a thousand million nanoseconds; a span of
/// exactly that many seconds is neither shorter nor longer.
pub proof fn law_spans(span: int, secs: int)
    ensures
        shorter_than(span, secs) <==> span < secs * 1000000000,
        longer_than(span, secs) <==> span > secs * 1000000000,
{
}

/// A message counts as sent when it says, where that has a date, and at the epoch
/// otherwise.
pub proof fn law_sent_second(secs: i64)
    ensures
        -8334601228800 <= secs <= 8210266876799 ==> sent_second(secs) == secs,
        !(-8334601228800 <= secs <= 8210266876799) ==> sent_second(secs) == 0,
        is_dated(secs as int, 0) <==> -8334601228800 <= secs <= 8210266876799,
{
}

}
