use vstd::prelude::*;
use crate::config::DATE_FORMAT;

verus! {

/// First second that a [`Timestamp`] can hold: the start of the year 0.
pub const MIN_SECS: i64 = -62_167_219_200;

/// Last second that a [`Timestamp`] can hold: the end of the year 9999.
pub const MAX_SECS: i64 = 253_402_300_799;

/// Number of nanoseconds in a second.
pub const NANOS_PER_SEC: u32 = 1_000_000_000;

/// A moment in UTC: whole seconds since the start of 1970, below zero for
/// earlier moments, and the nanoseconds into that second. Every value lies
/// between the start of the year 0 and the end of the year 9999.
#[derive(Clone, Copy, Debug, PartialEq, Eq)]
pub struct Timestamp {
    secs: i64,
    nanos: u32,
}

/// What chrono writes for the UTC moment `secs` seconds and `nanos`
/// nanoseconds after the start of 1970 under the strftime pattern `pattern`.
pub uninterp spec fn formatted(secs: int, nanos: int, pattern: Seq<char>) -> Seq<char>;

/// `chrono::DateTime::from_timestamp` followed by `NaiveDateTime::format`
/// and `to_string`. The moment is inside the range chrono can hold and the
/// pattern is the one fixed pattern of this library, which chrono accepts, so
/// neither step fails. The text is a function of the three arguments alone.
#[verifier::external_body]
fn format_utc(secs: i64, nanos: u32, pattern: &str) -> (text: String)
    requires
        MIN_SECS <= secs <= MAX_SECS,
        nanos < NANOS_PER_SEC,
        pattern@ == DATE_FORMAT@,
    ensures
        text@ == formatted(secs as int, nanos as int, pattern@),
{
    chrono::DateTime::from_timestamp(secs, nanos)
        .unwrap_or_default()
        .naive_utc()
        .format(pattern)
        .to_string()
}

impl View for Timestamp {
    type V = (int, int);

    /// Seconds since the start of 1970, and nanoseconds into that second.
    closed spec fn view(&self) -> (int, int) {
        (self.secs as int, self.nanos as int)
    }
}

impl Timestamp {
    #[verifier::type_invariant]
    spec fn in_range(self) -> bool {
        MIN_SECS <= self.secs <= MAX_SECS && self.nanos < NANOS_PER_SEC
    }

    /// The text of this moment under [`DATE_FORMAT`].
    pub open spec fn rendered(self) -> Seq<char> {
        formatted(self@.0, self@.1, DATE_FORMAT@)
    }

    /// The start of 1970.
    pub fn epoch() -> (t: Timestamp)
        ensures
            t@ == (0int, 0int),
    {
        Timestamp { secs: 0, nanos: 0 }
    }

    /// The moment `secs` seconds and `nanos` nanoseconds after the start of
    /// 1970, if it lies in the range of this type.
    pub fn new(secs: i64, nanos: u32) -> (r: Option<Timestamp>)
        ensures
            r is Some <==> MIN_SECS <= secs <= MAX_SECS && nanos < NANOS_PER_SEC,
            r is Some ==> r.unwrap()@ == (secs as int, nanos as int),
    {
        if MIN_SECS <= secs && secs <= MAX_SECS && nanos < NANOS_PER_SEC {
            Some(Timestamp { secs, nanos })
        } else {
            None
        }
    }

    /// Whole seconds since the start of 1970.
    pub fn secs(&self) -> (s: i64)
        ensures
            s == self@.0,
            MIN_SECS <= s <= MAX_SECS,
    {
        proof {
            use_type_invariant(self);
        }
        self.secs
    }

    /// Nanoseconds into the second.
    pub fn nanos(&self) -> (n: u32)
        ensures
            n == self@.1,
            n < NANOS_PER_SEC,
    {
        proof {
            use_type_invariant(self);
        }
        self.nanos
    }

    /// Renders this moment under [`DATE_FORMAT`].
    pub fn render(&self) -> (text: String)
        ensures
            text@ == self.rendered(),
    {
        proof {
            use_type_invariant(self);
        }
        format_utc(self.secs, self.nanos, DATE_FORMAT)
    }
}

} // verus!
