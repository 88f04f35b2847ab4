//! Instants and half-open intervals of UTC time, at nanosecond resolution,
//! together with the compact wire form used for stored event timings: a
//! sequence of one (instant) or two (range) signed 64-bit nanosecond values.

use chrono::Timelike;
use vstd::prelude::*;

verus! {

use crate::text::spec_decimal;
use crate::text::u64_to_string;

/// A half-open interval `[start, end)` of UTC time, in nanoseconds since the
/// Unix epoch.
#[derive(Debug, Clone, Copy, PartialEq, Eq, Structural)]
pub struct TimeRange {
    pub start: i64,
    pub end: i64,
}

/// An hourly activity summary: how many events fell into the hour starting
/// at `time` (nanoseconds since the Unix epoch).
#[derive(Debug, Clone, Copy, PartialEq, Eq, Structural)]
pub struct Marker {
    pub time: i64,
    pub amount: u32,
}

/// When an event happened: either a single instant or a range of time, both
/// in nanoseconds since the Unix epoch. For `Range` the start is assumed, not
/// enforced, to be at most the end.
#[derive(Debug, Clone, Copy, PartialEq, Eq, Structural)]
pub enum Timing {
    Range(TimeRange),
    Instant(i64),
}

impl TimeRange {
    /// Membership in the half-open interval `[start, end)`.
    pub open spec fn spec_includes(self, instant: i64) -> bool {
        self.start <= instant < self.end
    }

    /// The four-clause overlap predicate: one operand's boundary falls inside
    /// the other's interval, checked symmetrically. Touching ranges (one's end
    /// equal to the other's start) do not overlap under this formulation.
    pub open spec fn spec_overlap_range(self, other: TimeRange) -> bool {
        ||| self.start <= other.start < self.end
        ||| self.start < other.end <= self.end
        ||| other.start <= self.start < other.end
        ||| other.start < self.end <= other.end
    }

    /// Overlap with a timing: an instant must lie inside the range, a range
    /// must overlap it.
    pub open spec fn spec_overlap_timing(self, other: Timing) -> bool {
        match other {
            Timing::Instant(o) => self.spec_includes(o),
            Timing::Range(o) => self.spec_overlap_range(o),
        }
    }

    pub fn includes(&self, other: i64) -> (r: bool)
        ensures
            r == self.spec_includes(other),
    {
        other >= self.start && other < self.end
    }

    pub fn overlap_range(&self, other: &TimeRange) -> (r: bool)
        ensures
            r == self.spec_overlap_range(*other),
    {
        (other.start >= self.start && other.start < self.end)
            || (other.end > self.start && other.end <= self.end)
            || (self.start >= other.start && self.start < other.end)
            || (self.end > other.start && self.end <= other.end)
    }

    pub fn overlap_timing(&self, other: &Timing) -> (r: bool)
        ensures
            r == self.spec_overlap_timing(*other),
    {
        match other {
            Timing::Instant(o) => self.includes(*o),
            Timing::Range(o) => self.overlap_range(o),
        }
    }
}

/// Every non-empty range overlaps itself: its own start lies inside `[start, end)`.
/// An empty range (`start == end`) contains no instant at all, so it does not
/// overlap even itself.
pub proof fn lemma_self_overlap(r: TimeRange)
    requires
        r.start < r.end,
    ensures
        r.spec_overlap_range(r),
{
}

impl Timing {
    /// The instant an event is ordered by: a range counts as its start.
    pub open spec fn spec_start(self) -> i64 {
        match self {
            Timing::Instant(t) => t,
            Timing::Range(r) => r.start,
        }
    }

    /// Overlap of two timings: two instants must be equal; otherwise the
    /// range operand decides by inclusion or range overlap.
    pub open spec fn spec_overlap(self, other: Timing) -> bool {
        match (self, other) {
            (Timing::Range(s), Timing::Range(o)) => s.spec_overlap_range(o),
            (Timing::Instant(s), Timing::Range(o)) => o.spec_includes(s),
            (Timing::Range(s), Timing::Instant(o)) => s.spec_includes(o),
            (Timing::Instant(s), Timing::Instant(o)) => s == o,
        }
    }

    pub fn overlap(&self, other: &Timing) -> (r: bool)
        ensures
            r == self.spec_overlap(*other),
    {
        match (self, other) {
            (Timing::Range(s), Timing::Range(o)) => s.overlap_range(o),
            (Timing::Instant(s), Timing::Range(o)) => o.includes(*s),
            (Timing::Range(s), Timing::Instant(o)) => s.includes(*o),
            (Timing::Instant(s), Timing::Instant(o)) => *s == *o,
        }
    }

    /// The instant an event is ordered by, as a value.
    pub fn start_nanos(&self) -> (r: i64)
        ensures
            r == self.spec_start(),
    {
        match self {
            Timing::Instant(t) => *t,
            Timing::Range(r) => r.start,
        }
    }

    /// Total order on timings by their start instant.
    pub fn cmp(&self, other: &Timing) -> (r: core::cmp::Ordering)
        ensures
            r == core::cmp::Ordering::Less <==> self.spec_start() < other.spec_start(),
            r == core::cmp::Ordering::Equal <==> self.spec_start() == other.spec_start(),
            r == core::cmp::Ordering::Greater <==> self.spec_start() > other.spec_start(),
    {
        let s = match self {
            Timing::Instant(t) => *t,
            Timing::Range(r) => r.start,
        };
        let o = match other {
            Timing::Instant(t) => *t,
            Timing::Range(r) => r.start,
        };
        if s < o {
            core::cmp::Ordering::Less
        } else if s == o {
            core::cmp::Ordering::Equal
        } else {
            core::cmp::Ordering::Greater
        }
    }

    /// The wire form: one value for an instant, start then end for a range.
    pub open spec fn spec_wire(self) -> Seq<i64> {
        match self {
            Timing::Instant(t) => seq![t],
            Timing::Range(r) => seq![r.start, r.end],
        }
    }

    /// Encodes this timing as its wire sequence of nanosecond values.
    pub fn to_wire(&self) -> (r: Vec<i64>)
        ensures
            r@ == self.spec_wire(),
    {
        match self {
            Timing::Instant(t) => vec![*t],
            Timing::Range(r) => vec![r.start, r.end],
        }
    }

    /// What a wire sequence decodes to: exactly one value is an instant,
    /// exactly two are a range (in order, with no ordering enforced), and any
    /// other count is a parse failure.
    pub open spec fn spec_from_wire(values: Seq<i64>) -> Option<Timing> {
        if values.len() == 1 {
            Some(Timing::Instant(values[0]))
        } else if values.len() == 2 {
            Some(Timing::Range(TimeRange { start: values[0], end: values[1] }))
        } else {
            None
        }
    }

    /// Decodes a wire sequence; `None` is a parse failure (too many or too
    /// few values).
    pub fn from_wire(values: &Vec<i64>) -> (r: Option<Timing>)
        ensures
            r == Self::spec_from_wire(values@),
    {
        if values.len() == 1 {
            Some(Timing::Instant(values[0]))
        } else if values.len() == 2 {
            Some(Timing::Range(TimeRange { start: values[0], end: values[1] }))
        } else {
            None
        }
    }
}

/// Round trip: every timing decodes from its own wire form back to itself,
/// variant and nanosecond values intact.
pub proof fn lemma_wire_round_trip(t: Timing)
    ensures
        Timing::spec_from_wire(t.spec_wire()) == Some(t),
{
}

/// A clock component zero-padded to at least two digits.
pub open spec fn spec_prefix_number(n: nat) -> Seq<char> {
    if n < 10 {
        seq!['0'] + spec_decimal(n)
    } else {
        spec_decimal(n)
    }
}

/// Pads a number below ten with a leading zero, for clock display.
pub fn prefix_number(num: u32) -> (r: String)
    ensures
        r@ == spec_prefix_number(num as nat),
{
    if num < 10 {
        let mut s = String::from_str("0");
        proof {
            reveal_strlit("0");
            assert("0"@ =~= seq!['0']);
        }
        s.append(u64_to_string(num as u64).as_str());
        s
    } else {
        u64_to_string(num as u64)
    }
}

/// An `HH:MM` clock reading.
pub open spec fn spec_clock(hour: nat, minute: nat) -> Seq<char> {
    spec_prefix_number(hour) + seq![':'] + spec_prefix_number(minute)
}

/// Renders an hour and minute as `HH:MM`, both zero-padded.
pub fn clock_string(hour: u32, minute: u32) -> (r: String)
    ensures
        r@ == spec_clock(hour as nat, minute as nat),
{
    let mut s = prefix_number(hour);
    proof {
        reveal_strlit(":");
        assert(":"@ =~= seq![':']);
    }
    s.append(":");
    s.append(prefix_number(minute).as_str());
    s
}

/// Relies on chrono: `DateTime::from_timestamp_nanos` builds the UTC instant
/// for any `i64`, the `From` conversion moves it into the machine's local
/// time zone, and `Timelike::hour` and `Timelike::minute` return the hour
/// (0 to 23) and minute (0 to 59) of that local time. The values depend on
/// the machine's time zone, so nothing more is promised of them.
#[verifier::external_body]
fn local_hour_minute(nanos: i64) -> (r: (u32, u32))
    ensures
        r.0 < 24,
        r.1 < 60,
{
    let utc = chrono::DateTime::from_timestamp_nanos(nanos);
    let local = chrono::DateTime::<chrono::Local>::from(utc);
    (local.hour(), local.minute())
}

/// Renders an instant as its local wall-clock `HH:MM`. Which hour and minute
/// the machine's time zone assigns is not specified; the shape of the text is.
pub fn local_clock_string(nanos: i64) -> (r: String)
    ensures
        exists|h: nat, m: nat| h < 24 && m < 60 && r@ == spec_clock(h, m),
{
    let (hour, minute) = local_hour_minute(nanos);
    let s = clock_string(hour, minute);
    proof {
        assert(s@ == spec_clock(hour as nat, minute as nat));
    }
    s
}

impl TimeRange {
    /// The local wall-clock rendering `HH:MM-HH:MM` of start and end.
    pub fn display_string(&self) -> (r: String)
        ensures
            exists|a: Seq<char>, b: Seq<char>|
                r@ == a + seq!['-'] + b && (exists|h: nat, m: nat|
                    h < 24 && m < 60 && a == spec_clock(h, m)) && (exists|h: nat, m: nat|
                    h < 24 && m < 60 && b == spec_clock(h, m)),
    {
        let mut s = local_clock_string(self.start);
        let ghost a = s@;
        proof {
            reveal_strlit("-");
            assert("-"@ =~= seq!['-']);
        }
        s.append("-");
        let e = local_clock_string(self.end);
        let ghost b = e@;
        s.append(e.as_str());
        proof {
            assert(s@ == a + seq!['-'] + b);
        }
        s
    }
}

impl Timing {
    /// The local wall-clock rendering: an instant as `HH:MM`, a range as
    /// `HH:MM-HH:MM`.
    pub fn display_string(&self) -> (r: String)
        ensures
            *self matches Timing::Instant(_) ==> exists|h: nat, m: nat|
                h < 24 && m < 60 && r@ == spec_clock(h, m),
            *self matches Timing::Range(_) ==> exists|a: Seq<char>, b: Seq<char>|
                r@ == a + seq!['-'] + b && (exists|h: nat, m: nat|
                    h < 24 && m < 60 && a == spec_clock(h, m)) && (exists|h: nat, m: nat|
                    h < 24 && m < 60 && b == spec_clock(h, m)),
    {
        match self {
            Timing::Instant(v) => local_clock_string(*v),
            Timing::Range(range) => range.display_string(),
        }
    }
}

} // verus!
