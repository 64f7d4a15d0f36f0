//! Points in time as plain integers, and the calls into `chrono` that read
//! and write them as text.

use vstd::prelude::*;

verus! {

/// 00:00:00 on 1 January of the year -262143, in seconds since the epoch.
pub const MIN_SECS: i64 = -8_334_601_228_800;

/// 23:59:59 on 31 December of the year 262142, in seconds since the epoch.
pub const MAX_SECS: i64 = 8_210_266_876_799;

pub const SECS_PER_DAY: i64 = 86_400;

/// The pairs of seconds and nanoseconds from which `chrono` builds a UTC
/// date and time: the second lies between the first second of the year
/// -262143 and the last of 262142, and the nanoseconds pass a full second
/// only to write a leap second, which may follow a 59th second alone.
pub open spec fn representable(secs: int, nanos: int) -> bool {
    &&& MIN_SECS <= secs <= MAX_SECS
    &&& 0 <= nanos < 2_000_000_000
    &&& (nanos < 1_000_000_000 || secs % 60 == 59)
}

/// The quotient of `x` by a positive `d`, rounded toward zero.
pub open spec fn trunc_div(x: int, d: int) -> int {
    if x >= 0 {
        x / d
    } else {
        -((-x) / d)
    }
}

/// What `chrono` reads from a date and time with an offset, written in its
/// relaxed form of RFC 3339: the seconds since the epoch and the nanoseconds
/// of the UTC instant, or nothing where it rejects the text.
pub uninterp spec fn rfc3339_parts(text: Seq<char>) -> Option<(i64, u32)>;

/// What `chrono` reads from text in the form `%Y-%m-%d %H:%M:%S`, taken as
/// UTC, or nothing where it rejects the text.
pub uninterp spec fn naive_datetime_parts(text: Seq<char>) -> Option<(i64, u32)>;

/// The RFC 3339 text that `chrono` writes for a representable instant, with
/// `Z` for the offset and as many fraction digits, in groups of three, as the
/// nanoseconds need.
pub uninterp spec fn rfc3339_text(secs: i64, nanos: u32) -> Seq<char>;

/// The calendar date, as `chrono` writes it, of the UTC day that holds the
/// given second.
pub uninterp spec fn utc_date_text(secs: i64) -> Seq<char>;

/// `str::parse::<chrono::DateTime<chrono::Utc>>`. Trusted: the result is the
/// instant that `chrono` read, by its seconds and nanoseconds, and is a
/// function of the text alone.
#[verifier::external_body]
fn parse_rfc3339_parts(text: &str) -> (r: Option<(i64, u32)>)
    ensures
        r == rfc3339_parts(text@),
{
    match text.parse::<chrono::DateTime<chrono::Utc>>() {
        Ok(t) => Some((t.timestamp(), t.timestamp_subsec_nanos())),
        Err(_) => None,
    }
}

/// `chrono::NaiveDateTime::parse_from_str` with `%Y-%m-%d %H:%M:%S`. Trusted:
/// the result is the date and time that `chrono` read, taken as UTC, by its
/// seconds and nanoseconds, and is a function of the text alone.
#[verifier::external_body]
fn parse_naive_datetime_parts(text: &str) -> (r: Option<(i64, u32)>)
    ensures
        r == naive_datetime_parts(text@),
{
    match chrono::NaiveDateTime::parse_from_str(text, "%Y-%m-%d %H:%M:%S") {
        Ok(t) => Some((t.and_utc().timestamp(), t.and_utc().timestamp_subsec_nanos())),
        Err(_) => None,
    }
}

/// `chrono::DateTime::to_rfc3339_opts` with `SecondsFormat::AutoSi` and `Z`,
/// on the instant built by `chrono::DateTime::from_timestamp`. Trusted: a
/// representable pair is accepted, and the text is a function of the pair.
#[verifier::external_body]
fn write_rfc3339(secs: i64, nanos: u32) -> (r: String)
    requires
        representable(secs as int, nanos as int),
    ensures
        r@ == rfc3339_text(secs, nanos),
{
    chrono::DateTime::from_timestamp(secs, nanos)
        .unwrap()
        .to_rfc3339_opts(chrono::SecondsFormat::AutoSi, true)
}

/// `chrono::NaiveDate::to_string` on `chrono::DateTime::date_naive` of the
/// instant built by `chrono::DateTime::from_timestamp`. Trusted: a
/// representable second is accepted, and the text is a function of it.
#[verifier::external_body]
fn write_utc_date(secs: i64) -> (r: String)
    requires
        representable(secs as int, 0),
    ensures
        r@ == utc_date_text(secs),
{
    chrono::DateTime::from_timestamp(secs, 0).unwrap().date_naive().to_string()
}

/// `chrono::Utc::now`. Trusted: whatever the clock says, `chrono` hands out
/// only instants that it can represent.
#[verifier::external_body]
fn clock_parts() -> (r: (i64, u32))
    ensures
        representable(r.0 as int, r.1 as int),
{
    let t = chrono::Utc::now();
    (t.timestamp(), t.timestamp_subsec_nanos())
}

/// A UTC instant: whole seconds since 1970-01-01T00:00:00Z and the
/// nanoseconds past that second.
#[derive(Clone, Copy, Debug, PartialEq, Eq, Structural)]
pub struct Instant {
    pub secs: i64,
    pub nanos: u32,
}

impl Instant {
    /// An instant is well formed when `chrono` can represent it.
    pub open spec fn wf(self) -> bool {
        representable(self.secs as int, self.nanos as int)
    }

    /// The second of the UTC day in which the instant lies.
    pub open spec fn second_of_day(self) -> int {
        self.secs as int % 86_400
    }

    /// Whether the instant lies in a leap second.
    pub open spec fn in_leap_second(self) -> bool {
        self.nanos >= 1_000_000_000
    }

    /// The leap second that the time from `earlier` to `self` counts
    /// besides the difference of their seconds: one more where `self` is
    /// later in its day than `earlier` in its own and `earlier` lies in a
    /// leap second, one less in the mirrored case, and none otherwise.
    pub open spec fn leap_correction(self, earlier: Instant) -> int {
        if self.second_of_day() > earlier.second_of_day() && earlier.in_leap_second() {
            1
        } else if self.second_of_day() < earlier.second_of_day() && self.in_leap_second() {
            -1
        } else {
            0
        }
    }

    /// Nanoseconds from `earlier` to `self`: the difference of their
    /// seconds with the leap second that it counts, and the difference of
    /// their nanoseconds.
    pub open spec fn spec_nanos_since(self, earlier: Instant) -> int {
        (self.secs - earlier.secs + self.leap_correction(earlier)) * 1_000_000_000 + self.nanos
            - earlier.nanos
    }

    /// Whole milliseconds from `earlier` to `self`, rounded toward zero.
    pub open spec fn spec_millis_since(self, earlier: Instant) -> int {
        trunc_div(self.spec_nanos_since(earlier), 1_000_000)
    }

    /// The instant that a pair of seconds and nanoseconds stands for, where
    /// there is a pair and it is representable.
    pub open spec fn from_parts(parts: Option<(i64, u32)>) -> Option<Instant> {
        match parts {
            Some((secs, nanos)) => if representable(secs as int, nanos as int) {
                Some(Instant { secs, nanos })
            } else {
                None
            },
            None => None,
        }
    }

    /// The instant written in `text` as a date and time with an offset.
    pub open spec fn spec_parse_rfc3339(text: Seq<char>) -> Option<Instant> {
        Self::from_parts(rfc3339_parts(text))
    }

    /// The instant written in `text` as `YYYY-MM-DD HH:MM:SS`, read as UTC.
    pub open spec fn spec_parse_naive(text: Seq<char>) -> Option<Instant> {
        Self::from_parts(naive_datetime_parts(text))
    }

    /// The instant a whole number of seconds after the epoch.
    pub open spec fn spec_from_epoch(secs: i64) -> Option<Instant> {
        if representable(secs as int, 0) {
            Some(Instant { secs, nanos: 0 })
        } else {
            None
        }
    }

    /// Whether `self` is no later than `other`.
    pub open spec fn spec_le(self, other: Instant) -> bool {
        self.secs < other.secs || (self.secs == other.secs && self.nanos <= other.nanos)
    }

    /// Whether `self` is no later than `other`.
    pub fn le(&self, other: &Instant) -> (r: bool)
        ensures
            r == self.spec_le(*other),
    {
        self.secs < other.secs || (self.secs == other.secs && self.nanos <= other.nanos)
    }

    /// Builds the instant if it is representable.
    pub fn new(secs: i64, nanos: u32) -> (r: Option<Instant>)
        ensures
            r == if representable(secs as int, nanos as int) {
                Some(Instant { secs, nanos })
            } else {
                None::<Instant>
            },
    {
        if secs < MIN_SECS || secs > MAX_SECS || nanos >= 2_000_000_000 {
            return None;
        }
        if nanos >= 1_000_000_000 {
            let shifted: i64 = secs - MIN_SECS;
            assert(shifted % 60 == secs as int % 60);
            if shifted % 60 != 59 {
                return None;
            }
        }
        Some(Instant { secs, nanos })
    }

    /// Reads a date and time with an offset, such as `2024-03-01T10:00:00Z`.
    pub fn parse_rfc3339(text: &str) -> (r: Option<Instant>)
        ensures
            r == Self::spec_parse_rfc3339(text@),
            r matches Some(t) ==> t.wf(),
    {
        match parse_rfc3339_parts(text) {
            Some((secs, nanos)) => Instant::new(secs, nanos),
            None => None,
        }
    }

    /// Reads `YYYY-MM-DD HH:MM:SS` as a UTC date and time.
    pub fn parse_naive(text: &str) -> (r: Option<Instant>)
        ensures
            r == Self::spec_parse_naive(text@),
            r matches Some(t) ==> t.wf(),
    {
        match parse_naive_datetime_parts(text) {
            Some((secs, nanos)) => Instant::new(secs, nanos),
            None => None,
        }
    }

    /// The instant `secs` whole seconds after the epoch, if representable.
    pub fn from_epoch(secs: i64) -> (r: Option<Instant>)
        ensures
            r == Self::spec_from_epoch(secs),
            r matches Some(t) ==> t.wf(),
    {
        Instant::new(secs, 0)
    }

    /// The current time.
    pub fn now() -> (r: Instant)
        ensures
            r.wf(),
    {
        let (secs, nanos) = clock_parts();
        Instant { secs, nanos }
    }

    /// The instant in RFC 3339 form, as it appears in response documents.
    pub fn to_rfc3339(&self) -> (r: String)
        requires
            self.wf(),
        ensures
            r@ == rfc3339_text(self.secs, self.nanos),
    {
        write_rfc3339(self.secs, self.nanos)
    }

    /// The instant as a value of a document: its RFC 3339 text.
    pub open spec fn json(self) -> crate::document::Json {
        crate::document::Json::Text(rfc3339_text(self.secs, self.nanos))
    }

    /// The instant as a value of a document.
    pub fn document(&self) -> (r: crate::document::Document)
        requires
            self.wf(),
        ensures
            r@ == self.json(),
    {
        crate::document::Document::Text(self.to_rfc3339())
    }

    /// The calendar date of the UTC day `days_back` days before the day of
    /// this instant.
    pub open spec fn spec_date_text(self, days_back: u64) -> Seq<char> {
        utc_date_text((self.secs - days_back * 86_400) as i64)
    }

    /// Whether the day `days_back` days before this instant can be written.
    pub open spec fn reaches_back(self, days_back: u64) -> bool {
        self.secs - days_back * 86_400 >= MIN_SECS
    }

    /// Whether the day `days_back` days before this instant can be written.
    pub fn can_reach_back(&self, days_back: u64) -> (r: bool)
        requires
            self.wf(),
        ensures
            r == self.reaches_back(days_back),
    {
        days_back <= 200_000_000 && self.secs - (days_back as i64) * SECS_PER_DAY >= MIN_SECS
    }

    /// The calendar date, `YYYY-MM-DD`, of the UTC day `days_back` days
    /// before the day of this instant.
    pub fn date_text(&self, days_back: u64) -> (r: String)
        requires
            self.wf(),
            self.reaches_back(days_back),
        ensures
            r@ == self.spec_date_text(days_back),
    {
        let span: i64 = (days_back as i64) * SECS_PER_DAY;
        write_utc_date(self.secs - span)
    }

    /// Elapsed time from `earlier` to `self` in whole milliseconds, counted
    /// as `chrono` counts it. A negative result means that `self` is the
    /// earlier of the two.
    pub fn millis_since(&self, earlier: &Instant) -> (r: i64)
        requires
            self.wf(),
            earlier.wf(),
        ensures
            r == self.spec_millis_since(*earlier),
    {
        let here: i64 = (self.secs - MIN_SECS) % SECS_PER_DAY;
        let there: i64 = (earlier.secs - MIN_SECS) % SECS_PER_DAY;
        assert(here == self.second_of_day() && there == earlier.second_of_day());
        let leap: i128 = if here > there && earlier.nanos >= 1_000_000_000 {
            1
        } else if here < there && self.nanos >= 1_000_000_000 {
            -1
        } else {
            0
        };
        let secs: i128 = self.secs as i128 - earlier.secs as i128 + leap;
        let nanos: i128 = self.nanos as i128 - earlier.nanos as i128;
        let total: i128 = secs * 1_000_000_000 + nanos;
        if total >= 0 {
            let q: i128 = total / 1_000_000;
            q as i64
        } else {
            let q: i128 = (-total) / 1_000_000;
            (-q) as i64
        }
    }
}

} // verus!
