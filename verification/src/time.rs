//! Points in time in UTC.

use vstd::prelude::*;

verus! {

/// The first second that a timestamp can name: the start of the year -262143.
pub const FIRST_SECOND: i64 = -8334601228800;

/// The last second that a timestamp can name: the end of the year 262142.
pub const LAST_SECOND: i64 = 8210266876799;

/// Seconds since the start of 1970, and nanoseconds since the start of that
/// second. A leap second is the second half of the last second of a minute.
#[verifier::ext_equal]
pub struct Instant {
    pub secs: int,
    pub nanos: int,
}

/// The two numbers name a point in time.
pub open spec fn is_instant(t: Instant) -> bool {
    &&& FIRST_SECOND <= t.secs <= LAST_SECOND
    &&& 0 <= t.nanos < 2_000_000_000
    &&& t.nanos >= 1_000_000_000 ==> t.secs % 60 == 59
}

/// `a` comes before `b`.
pub open spec fn precedes(a: Instant, b: Instant) -> bool {
    a.secs < b.secs || (a.secs == b.secs && a.nanos < b.nanos)
}

/// The seconds since midnight.
pub open spec fn time_of_day(t: Instant) -> int {
    t.secs % 86400
}

/// The nanoseconds from `earlier` to `later`. A leap second counts where the
/// time of day lies beyond it.
pub open spec fn elapsed(later: Instant, earlier: Instant) -> int {
    let leap: int = if time_of_day(later) > time_of_day(earlier) && earlier.nanos
        >= 1_000_000_000 {
        1
    } else if time_of_day(later) < time_of_day(earlier) && later.nanos >= 1_000_000_000 {
        -1
    } else {
        0
    };
    (later.secs - earlier.secs + leap) * 1_000_000_000 + (later.nanos - earlier.nanos)
}

/// How much of a second is written.
#[derive(Debug, Clone, Copy, PartialEq, Eq)]
pub enum Fraction {
    /// Nothing.
    Omitted,
    /// As many groups of three digits as there are nanoseconds to write.
    AsNeeded,
}

/// What `chrono::DateTime::<Utc>::to_rfc3339_opts` gives for the point in time
/// with these seconds and nanoseconds, with `Z` for UTC: without a fraction of
/// the second, or with the fraction that `SecondsFormat::AutoSi` asks for.
pub uninterp spec fn rfc3339_text(secs: int, nanos: int, with_fraction: bool) -> Seq<char>;

/// What `chrono::DateTime::<Utc>::format` writes for the point in time with
/// these seconds and nanoseconds in the given format.
pub uninterp spec fn formatted_text(secs: int, nanos: int, format: Seq<char>) -> Seq<char>;

/// `chrono::Utc::now`, as seconds and nanoseconds. Which point in time it
/// gives rests with the machine's clock; it is one that a `DateTime` can hold,
/// and never within a leap second, which the clock does not tell.
/// It does not return where the clock stands before 1970.
#[verifier::external_body]
fn clock() -> (r: (i64, u32))
    ensures
        is_instant(Instant { secs: r.0 as int, nanos: r.1 as int }),
        r.1 < 1_000_000_000,
{
    let now = chrono::Utc::now();
    (now.timestamp(), now.timestamp_subsec_nanos())
}

/// `chrono::DateTime::signed_duration_since`, as whole seconds and the
/// remaining nanoseconds, which have the same sign. Together they are the time
/// that passed, with the leap second that chrono counts.
#[verifier::external_body]
fn duration_since(secs: i64, nanos: u32, earlier_secs: i64, earlier_nanos: u32) -> (r: (i64, i32))
    requires
        is_instant(Instant { secs: secs as int, nanos: nanos as int }),
        is_instant(Instant { secs: earlier_secs as int, nanos: earlier_nanos as int }),
    ensures
        r.0 * 1_000_000_000 + r.1 == elapsed(
            Instant { secs: secs as int, nanos: nanos as int },
            Instant { secs: earlier_secs as int, nanos: earlier_nanos as int },
        ),
        -1_000_000_000 < r.1 < 1_000_000_000,
        r.0 > 0 ==> r.1 >= 0,
        r.0 < 0 ==> r.1 <= 0,
{
    let later = chrono::DateTime::from_timestamp(secs, nanos).unwrap();
    let earlier = chrono::DateTime::from_timestamp(earlier_secs, earlier_nanos).unwrap();
    let duration = later.signed_duration_since(earlier);
    (duration.num_seconds(), duration.subsec_nanos())
}

/// `chrono::DateTime::<Utc>::to_rfc3339_opts` with `Z` for UTC, called with
/// `SecondsFormat::Secs` or `SecondsFormat::AutoSi`.
#[verifier::external_body]
fn rfc3339_of(secs: i64, nanos: u32, fraction: Fraction) -> (r: String)
    requires
        is_instant(Instant { secs: secs as int, nanos: nanos as int }),
    ensures
        r@ == rfc3339_text(secs as int, nanos as int, fraction is AsNeeded),
{
    let time = chrono::DateTime::from_timestamp(secs, nanos).unwrap();
    let format = match fraction {
        Fraction::Omitted => chrono::SecondsFormat::Secs,
        Fraction::AsNeeded => chrono::SecondsFormat::AutoSi,
    };
    time.to_rfc3339_opts(format, true)
}

/// The format of a point in time to the second, for people to read.
pub const READABLE_FORMAT: &'static str = "%Y-%m-%d %H:%M:%S UTC";

/// `chrono::DateTime::<Utc>::format`, written to a string. The format is one
/// that chrono understands.
#[verifier::external_body]
fn formatted(secs: i64, nanos: u32, format: &str) -> (r: String)
    requires
        is_instant(Instant { secs: secs as int, nanos: nanos as int }),
        format@ == READABLE_FORMAT@,
    ensures
        r@ == formatted_text(secs as int, nanos as int, format@),
{
    let time = chrono::DateTime::from_timestamp(secs, nanos).unwrap();
    time.format(format).to_string()
}

/// A point in time in UTC.
#[derive(Debug, Clone, Copy, PartialEq, Eq)]
pub struct Timestamp {
    secs: i64,
    nanos: u32,
}

impl View for Timestamp {
    type V = Instant;

    closed spec fn view(&self) -> Instant {
        Instant { secs: self.secs as int, nanos: self.nanos as int }
    }
}

impl Timestamp {
    #[verifier::type_invariant]
    spec fn is_valid(self) -> bool {
        is_instant(self@)
    }

    /// The point in time with these seconds since the start of 1970 and these
    /// nanoseconds, if there is one.
    pub fn new(secs: i64, nanos: u32) -> (r: Option<Timestamp>)
        ensures
            match r {
                Some(t) => t@ == (Instant { secs: secs as int, nanos: nanos as int }),
                None => true,
            },
            r is Some <==> is_instant(Instant { secs: secs as int, nanos: nanos as int }),
    {
        if secs < FIRST_SECOND || secs > LAST_SECOND || nanos >= 2_000_000_000 {
            return None;
        }
        let since_first: u64 = (secs - FIRST_SECOND) as u64;
        if nanos >= 1_000_000_000 && since_first % 60 != 59 {
            return None;
        }
        Some(Timestamp { secs, nanos })
    }

    /// The current time, which is never within a leap second. Which time that
    /// is rests with the machine's clock.
    pub fn now() -> (r: Timestamp)
        ensures
            is_instant(r@),
            r@.nanos < 1_000_000_000,
    {
        let (secs, nanos) = clock();
        Timestamp { secs, nanos }
    }

    /// The seconds since the start of 1970.
    pub fn seconds(&self) -> (r: i64)
        ensures
            r == self@.secs,
            FIRST_SECOND <= r <= LAST_SECOND,
    {
        proof {
            use_type_invariant(self);
        }
        self.secs
    }

    /// The nanoseconds since the start of the second.
    pub fn nanoseconds(&self) -> (r: u32)
        ensures
            r == self@.nanos,
            r < 2_000_000_000,
    {
        proof {
            use_type_invariant(self);
        }
        self.nanos
    }

    /// Whether this point in time comes before `other`.
    pub fn is_before(&self, other: &Timestamp) -> (r: bool)
        ensures
            r == precedes(self@, other@),
    {
        self.secs < other.secs || (self.secs == other.secs && self.nanos < other.nanos)
    }

    /// Whether more than `seconds` seconds passed from this point in time to
    /// `now`.
    pub fn is_older_than(&self, now: &Timestamp, seconds: u64) -> (r: bool)
        ensures
            r == (elapsed(now@, self@) > seconds * 1_000_000_000),
    {
        proof {
            use_type_invariant(self);
            use_type_invariant(now);
        }
        let (whole, rest) = duration_since(now.secs, now.nanos, self.secs, self.nanos);
        if whole < 0 {
            false
        } else {
            whole as u64 > seconds || (whole as u64 == seconds && rest > 0)
        }
    }

    /// The point in time as RFC 3339 has it, with `Z` for UTC.
    pub fn to_rfc3339(&self, fraction: Fraction) -> (r: String)
        ensures
            r@ == rfc3339_text(self@.secs, self@.nanos, fraction is AsNeeded),
    {
        proof {
            use_type_invariant(self);
        }
        rfc3339_of(self.secs, self.nanos, fraction)
    }

    /// The point in time to the second, for people to read.
    pub fn to_readable(&self) -> (r: String)
        ensures
            r@ == formatted_text(self@.secs, self@.nanos, READABLE_FORMAT@),
    {
        proof {
            use_type_invariant(self);
        }
        formatted(self.secs, self.nanos, READABLE_FORMAT)
    }
}

/// Of two different points in time one comes first.
pub proof fn law_times_are_ordered(a: Instant, b: Instant)
    ensures
        a == b || precedes(a, b) || precedes(b, a),
        precedes(a, b) ==> !precedes(b, a),
{
}

/// Between points in time outside of leap seconds, time passes forward: what
/// comes first is the older by the time in between.
pub proof fn law_time_passes(a: Instant, b: Instant)
    requires
        is_instant(a),
        is_instant(b),
        a.nanos < 1_000_000_000,
        b.nanos < 1_000_000_000,
    ensures
        elapsed(b, a) == -elapsed(a, b),
        elapsed(b, a) > 0 <==> precedes(a, b),
        elapsed(a, a) == 0,
{
}

/// Outside of leap seconds, the time between two points in time is the difference of
/// their seconds and of their nanoseconds, and the one with fewer seconds, or with the
/// same and fewer nanoseconds, comes first.
pub proof fn law_time_in_between(a: Instant, b: Instant)
    ensures
        a.nanos < 1_000_000_000 && b.nanos < 1_000_000_000 ==> elapsed(b, a) == (b.secs - a.secs)
            * 1_000_000_000 + (b.nanos - a.nanos),
        precedes(a, b) <==> a.secs < b.secs || (a.secs == b.secs && a.nanos < b.nanos),
{
}

/// A leap second takes a second: to a time of the same day behind it, one second more
/// passes from within it than from the start of its second.
pub proof fn law_leap_second_passes(a: Instant, b: Instant)
    requires
        1_000_000_000 <= a.nanos < 2_000_000_000,
        b.nanos < 1_000_000_000,
        a.secs % 86400 < b.secs % 86400,
        a.secs < b.secs,
    ensures
        elapsed(b, a) == (b.secs - a.secs) * 1_000_000_000 + b.nanos - (a.nanos - 1_000_000_000),
        elapsed(a, b) == -elapsed(b, a),
{
}

/// A point in time has less than a second of nanoseconds, or less than two in the last
/// second of a minute, which may be followed by a leap second.
pub proof fn law_points_in_time(t: Instant)
    ensures
        is_instant(t) ==> -8334601228800 <= t.secs <= 8210266876799 && 0 <= t.nanos,
        -8334601228800 <= t.secs <= 8210266876799 && 0 <= t.nanos < 1_000_000_000 ==> is_instant(t),
        -8334601228800 <= t.secs <= 8210266876799 && 1_000_000_000 <= t.nanos ==> (is_instant(t)
            <==> t.nanos < 2_000_000_000 && t.secs % 60 == 59),
{
}

} // verus!
