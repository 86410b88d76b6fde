//! Points in time as plain numbers, and what chrono computes of them.

use vstd::prelude::*;

verus! {

/// The first second that a calendar date can name: midnight on January 1, 262144 BCE.
pub const MIN_SECS: i64 = -8_334_601_228_800;

/// The last second that a calendar date can name: the end of December 31, 262142 CE.
pub const MAX_SECS: i64 = 8_210_266_876_799;

/// The seconds of a day.
pub const DAY_SECS: i64 = 86_400;

/// The nanoseconds of a second.
pub const SECOND_NANOS: u32 = 1_000_000_000;

/// The numbers that name a point in time: seconds since the Unix epoch on a calendar date, and
/// nanoseconds within the second. Nanoseconds past a full second lie in a leap second, which may
/// follow any second.
pub open spec fn representable(secs: int, nanos: int) -> bool {
    &&& MIN_SECS <= secs <= MAX_SECS
    &&& 0 <= nanos < 2 * SECOND_NANOS
}

/// A point in time in UTC.
#[derive(Clone, Copy, Debug, PartialEq, Eq)]
pub struct Moment {
    secs: i64,
    nanos: u32,
}

impl Moment {
    #[verifier::type_invariant]
    closed spec fn well_formed(self) -> bool {
        representable(self.secs as int, self.nanos as int)
    }

    /// Seconds since the Unix epoch.
    pub closed spec fn spec_secs(self) -> int {
        self.secs as int
    }

    /// Nanoseconds within the second.
    pub closed spec fn spec_nanos(self) -> int {
        self.nanos as int
    }

    /// The point in time that the numbers name, if they name one.
    pub fn new(secs: i64, nanos: u32) -> (moment: Option<Moment>)
        ensures
            moment is Some <==> representable(secs as int, nanos as int),
            moment matches Some(m) ==> m.spec_secs() == secs && m.spec_nanos() == nanos,
    {
        if MIN_SECS <= secs && secs <= MAX_SECS && nanos < 2 * SECOND_NANOS {
            Some(Moment { secs, nanos })
        } else {
            None
        }
    }

    /// Seconds since the Unix epoch.
    pub fn secs(&self) -> (secs: i64)
        ensures
            secs == self.spec_secs(),
    {
        self.secs
    }

    /// Nanoseconds within the second.
    pub fn nanos(&self) -> (nanos: u32)
        ensures
            nanos == self.spec_nanos(),
    {
        self.nanos
    }
}

/// The second of the day.
pub open spec fn second_of_day(secs: int) -> int {
    secs % (DAY_SECS as int)
}

/// The leap second that lies between two points in time, one of which is inside it, going by
/// their times of day.
pub open spec fn leap_between(to: Moment, from: Moment) -> int {
    if second_of_day(to.spec_secs()) > second_of_day(from.spec_secs()) && from.spec_nanos()
        >= SECOND_NANOS {
        1
    } else if second_of_day(to.spec_secs()) < second_of_day(from.spec_secs()) && to.spec_nanos()
        >= SECOND_NANOS {
        -1
    } else {
        0
    }
}

/// The nanoseconds from one point in time to another: negative where the second lies before the
/// first.
pub open spec fn span(to: Moment, from: Moment) -> int {
    (to.spec_secs() - from.spec_secs() + leap_between(to, from)) * SECOND_NANOS + to.spec_nanos()
        - from.spec_nanos()
}

/// The whole seconds of a span, rounded toward zero.
pub open spec fn whole_seconds(span: int) -> int {
    if span >= 0 {
        span / (SECOND_NANOS as int)
    } else {
        -(-span / (SECOND_NANOS as int))
    }
}

/// `chrono::DateTime::signed_duration_since`, taken apart into its whole seconds, rounded toward
/// zero, and the rest in nanoseconds. Both have the sign of the span. The points in time are
/// built by `from_timestamp` for the second and `NaiveDateTime::with_nanosecond` for the rest,
/// which takes a leap second after any second.
#[verifier::external_body]
fn signed_duration_since(to: &Moment, from: &Moment) -> (parts: (i64, i32))
    requires
        representable(to.spec_secs(), to.spec_nanos()),
        representable(from.spec_secs(), from.spec_nanos()),
    ensures
        parts.0 == whole_seconds(span(*to, *from)),
        parts.1 == span(*to, *from) - parts.0 * SECOND_NANOS,
{
    let to_second = chrono::DateTime::from_timestamp(to.secs, 0).unwrap().naive_utc();
    let from_second = chrono::DateTime::from_timestamp(from.secs, 0).unwrap().naive_utc();
    let to = chrono::Timelike::with_nanosecond(&to_second, to.nanos).unwrap().and_utc();
    let from = chrono::Timelike::with_nanosecond(&from_second, from.nanos).unwrap().and_utc();
    let delta = to.signed_duration_since(from);
    (delta.num_seconds(), delta.subsec_nanos())
}

/// The whole seconds from one point in time to another.
pub fn elapsed_seconds(to: &Moment, from: &Moment) -> (secs: i64)
    ensures
        secs == whole_seconds(span(*to, *from)),
{
    proof {
        use_type_invariant(to);
        use_type_invariant(from);
    }
    signed_duration_since(to, from).0
}

/// How far two points in time lie apart, in nanoseconds.
pub open spec fn distance(a: Moment, b: Moment) -> int {
    if span(a, b) >= 0 {
        span(a, b)
    } else {
        -span(a, b)
    }
}

/// How far two points in time lie apart, in nanoseconds.
pub fn time_distance(a: &Moment, b: &Moment) -> (nanos: i128)
    ensures
        nanos == distance(*a, *b),
{
    proof {
        use_type_invariant(a);
        use_type_invariant(b);
    }
    let parts: (i64, i32) = signed_duration_since(a, b);
    let nanos: i128 = parts.0 as i128 * SECOND_NANOS as i128 + parts.1 as i128;
    if nanos >= 0 {
        nanos
    } else {
        -nanos
    }
}

/// The span back is the span there, negated.
pub proof fn spans_are_antisymmetric(a: Moment, b: Moment)
    ensures
        span(a, b) == -span(b, a),
        whole_seconds(span(a, b)) == -whole_seconds(span(b, a)),
        distance(a, b) == distance(b, a),
        span(a, a) == 0,
{
    assert((a.spec_secs() - b.spec_secs() + leap_between(a, b)) == -(b.spec_secs() - a.spec_secs()
        + leap_between(b, a)));
}

/// The pattern of a stamp: year, month, day, hour and minute, each in two digits.
pub const STAMP_PATTERN: &'static str = "%y/%m/%d，%H:%M";

/// The text that `chrono::DateTime::format` gives for a point in time, `secs` and `nanos` after
/// the epoch, in the zone `offset` seconds east of UTC, by a pattern.
pub uninterp spec fn formatted_time(secs: int, nanos: int, offset: int, pattern: Seq<char>) -> Seq<
    char,
>;

/// `chrono::DateTime::format` after `with_timezone` to a fixed offset. The text is a function of
/// the point in time, the offset and the pattern, which the contract names and does not spell
/// out. Only the stamp pattern is let through: with an unknown specifier the call panics.
#[verifier::external_body]
fn format_time(at: &Moment, offset: i32, pattern: &str) -> (text: String)
    requires
        representable(at.spec_secs(), at.spec_nanos()),
        -DAY_SECS < offset < DAY_SECS,
        pattern@ == STAMP_PATTERN@,
    ensures
        text@ == formatted_time(at.spec_secs(), at.spec_nanos(), offset as int, pattern@),
{
    let zone = chrono::FixedOffset::east_opt(offset).unwrap();
    let second = chrono::DateTime::from_timestamp(at.secs, 0).unwrap().naive_utc();
    let utc = chrono::Timelike::with_nanosecond(&second, at.nanos).unwrap().and_utc();
    utc.with_timezone(&zone).format(pattern).to_string()
}

/// A point in time together with the local zone's offset from UTC then.
#[derive(Clone, Copy, Debug, PartialEq, Eq)]
pub struct LocalMoment {
    moment: Moment,
    offset: i32,
}

impl LocalMoment {
    #[verifier::type_invariant]
    closed spec fn well_formed(self) -> bool {
        -DAY_SECS < self.offset < DAY_SECS
    }

    /// The point in time.
    pub closed spec fn spec_moment(self) -> Moment {
        self.moment
    }

    /// Local time minus UTC, in seconds.
    pub closed spec fn spec_offset(self) -> int {
        self.offset as int
    }

    /// A point in time in a zone `offset` seconds east of UTC, if an offset can be that large.
    pub fn new(moment: Moment, offset: i32) -> (local: Option<LocalMoment>)
        ensures
            local is Some <==> -DAY_SECS < offset < DAY_SECS,
            local matches Some(l) ==> l.spec_moment() == moment && l.spec_offset() == offset,
    {
        if -DAY_SECS < offset as i64 && (offset as i64) < DAY_SECS {
            Some(LocalMoment { moment, offset })
        } else {
            None
        }
    }

    /// The stamp of this point in time on a local clock.
    pub open spec fn spec_stamp(self) -> Seq<char> {
        formatted_time(
            self.spec_moment().spec_secs(),
            self.spec_moment().spec_nanos(),
            self.spec_offset(),
            STAMP_PATTERN@,
        )
    }

    /// The stamp of this point in time on a local clock.
    pub fn stamp(&self) -> (text: String)
        ensures
            text@ == self.spec_stamp(),
    {
        proof {
            use_type_invariant(self);
            use_type_invariant(&self.moment);
        }
        format_time(&self.moment, self.offset, STAMP_PATTERN)
    }
}

/// Every second from the first to the last of the calendar, with less than two seconds of
/// nanoseconds, is a point in time, and nothing else is.
pub proof fn every_second_of_the_calendar_is_representable(secs: int, nanos: int)
    ensures
        representable(secs, nanos) <==> -8_334_601_228_800 <= secs <= 8_210_266_876_799 && 0
            <= nanos < 2_000_000_000,
{
}

/// Where neither point in time lies in a leap second, a span is the difference between the two
/// in nanoseconds since the epoch, whatever their size.
pub proof fn spans_are_differences_of_time(to: Moment, from: Moment)
    requires
        to.spec_nanos() < 1_000_000_000,
        from.spec_nanos() < 1_000_000_000,
    ensures
        span(to, from) == (to.spec_secs() * 1_000_000_000 + to.spec_nanos()) - (from.spec_secs()
            * 1_000_000_000 + from.spec_nanos()),
{
}

/// A leap second in which a span begins counts where the span ends at a later time of day, and
/// one in which it ends counts where it begins at a later time of day. Otherwise a span is the
/// difference of the seconds and of the nanoseconds.
pub proof fn leap_seconds_count_by_the_time_of_day(to: Moment, from: Moment)
    ensures
        ({
            let difference = (to.spec_secs() * 1_000_000_000 + to.spec_nanos()) - (from.spec_secs()
                * 1_000_000_000 + from.spec_nanos());
            let later = to.spec_secs() % 86_400 > from.spec_secs() % 86_400;
            let earlier = to.spec_secs() % 86_400 < from.spec_secs() % 86_400;
            &&& later && from.spec_nanos() >= 1_000_000_000 ==> span(to, from) == difference
                + 1_000_000_000
            &&& earlier && to.spec_nanos() >= 1_000_000_000 ==> span(to, from) == difference
                - 1_000_000_000
            &&& !(later && from.spec_nanos() >= 1_000_000_000) && !(earlier && to.spec_nanos()
                >= 1_000_000_000) ==> span(to, from) == difference
        }),
{
}

/// A distance is the span one way or the other, whichever is not negative.
pub proof fn distances_are_spans_without_their_sign(a: Moment, b: Moment)
    ensures
        distance(a, b) >= 0,
        distance(a, b) == span(a, b) || distance(a, b) == span(b, a),
        distance(a, b) >= span(a, b),
        distance(a, b) >= span(b, a),
{
    spans_are_antisymmetric(a, b);
}

/// Outside leap seconds, of two points in time the nearer to a third is the one that fewer
/// nanoseconds lie between, and they are equally near only where as many do.
pub proof fn less_time_apart_is_nearer(a: Moment, b: Moment, time: Moment)
    requires
        a.spec_nanos() < 1_000_000_000,
        b.spec_nanos() < 1_000_000_000,
        time.spec_nanos() < 1_000_000_000,
    ensures
        ({
            let to_a = (a.spec_secs() - time.spec_secs()) * 1_000_000_000 + a.spec_nanos()
                - time.spec_nanos();
            let to_b = (b.spec_secs() - time.spec_secs()) * 1_000_000_000 + b.spec_nanos()
                - time.spec_nanos();
            &&& -to_a <= distance(a, time) && to_a <= distance(a, time)
            &&& distance(a, time) == to_a || distance(a, time) == -to_a
            &&& distance(a, time) < distance(b, time) <==> {
                ||| to_a < to_b && -to_a < to_b
                ||| to_a < -to_b && -to_a < -to_b
            }
            &&& distance(a, time) == distance(b, time) <==> to_a == to_b || to_a == -to_b
        }),
{
}

/// The whole seconds of a span are as many as fit into it, with its sign.
pub proof fn whole_seconds_are_as_many_as_fit(span: int)
    ensures
        span >= 0 ==> whole_seconds(span) * 1_000_000_000 <= span < (whole_seconds(span) + 1)
            * 1_000_000_000,
        span < 0 ==> (whole_seconds(span) - 1) * 1_000_000_000 < span <= whole_seconds(span)
            * 1_000_000_000,
{
}

/// A stamp tells a point in time by the day and the minute of the local clock.
pub proof fn stamps_tell_the_day_and_the_minute(local: LocalMoment)
    ensures
        local.spec_stamp() == formatted_time(
            local.spec_moment().spec_secs(),
            local.spec_moment().spec_nanos(),
            local.spec_offset(),
            "%y/%m/%d，%H:%M"@,
        ),
{
}

} // verus!
