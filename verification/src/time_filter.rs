//! Filtering files by modification time: `[+|-]<number><unit>` or
//! `<number><unit>..<number><unit>`.
use vstd::prelude::*;
use std::time::{SystemTime, UNIX_EPOCH};
use crate::text::{
    digit_prefix, digit_prefix_len, lowercase, lowercase_chars, parse_digits, parse_u64, str_chars,
    sub_chars, trim, trim_chars, is_text,
};

verus! {

/// A point in time as seconds and nanoseconds from the Unix epoch, the way a
/// Unix `SystemTime` holds it: `secs` may be negative, `nanos` is below one
/// billion.
#[derive(Clone, Copy, Debug, PartialEq, Eq)]
pub struct Timestamp {
    pub secs: i64,
    pub nanos: u32,
}

/// One second in nanoseconds.
pub const NANOS_PER_SEC: u32 = 1_000_000_000;

impl Timestamp {
    /// The nanoseconds part is a fraction of a second.
    pub open spec fn wf(self) -> bool {
        self.nanos < NANOS_PER_SEC
    }
}

/// `a` is earlier than `b`.
pub open spec fn timestamp_lt(a: Timestamp, b: Timestamp) -> bool {
    a.secs < b.secs || (a.secs == b.secs && a.nanos < b.nanos)
}

/// `t` moved back by `secs` whole seconds, unless that leaves the range of
/// seconds that the platform time can hold.
pub open spec fn timestamp_minus_secs(t: Timestamp, secs: u64) -> Option<Timestamp> {
    if t.secs - secs >= i64::MIN {
        Some(Timestamp { secs: (t.secs - secs) as i64, nanos: t.nanos })
    } else {
        None
    }
}

/// The time that lies `secs` seconds and `nanos` nanoseconds after the epoch,
/// or before it when `before_epoch` holds.
pub open spec fn epoch_offset(before_epoch: bool, secs: u64, nanos: u32) -> Option<Timestamp> {
    if !before_epoch {
        if secs <= i64::MAX {
            Some(Timestamp { secs: secs as i64, nanos })
        } else {
            None
        }
    } else if nanos == 0 {
        if secs <= i64::MAX + 1 {
            Some(Timestamp { secs: (-secs) as i64, nanos: 0 })
        } else {
            None
        }
    } else {
        if secs + 1 <= i64::MAX + 1 {
            Some(Timestamp { secs: (-secs - 1) as i64, nanos: (NANOS_PER_SEC - nanos) as u32 })
        } else {
            None
        }
    }
}

impl Timestamp {
    /// Whether this time is earlier than `other`.
    pub fn is_before(&self, other: &Timestamp) -> (res: bool)
        ensures
            res == timestamp_lt(*self, *other),
    {
        self.secs < other.secs || (self.secs == other.secs && self.nanos < other.nanos)
    }

    /// This time moved back by whole seconds; `None` when the result falls
    /// below the seconds that an `i64` holds.
    pub fn checked_sub_secs(&self, secs: u64) -> (res: Option<Timestamp>)
        ensures
            res == timestamp_minus_secs(*self, secs),
    {
        let back = self.secs as i128 - secs as i128;
        if back >= i64::MIN as i128 {
            Some(Timestamp { secs: back as i64, nanos: self.nanos })
        } else {
            None
        }
    }

    /// The time at a given distance from the epoch, after it or before it.
    pub fn from_epoch_offset(before_epoch: bool, secs: u64, nanos: u32) -> (res: Option<Timestamp>)
        requires
            nanos < NANOS_PER_SEC,
        ensures
            res == epoch_offset(before_epoch, secs, nanos),
            res matches Some(t) ==> t.wf(),
    {
        if !before_epoch {
            if secs <= i64::MAX as u64 {
                Some(Timestamp { secs: secs as i64, nanos })
            } else {
                None
            }
        } else if nanos == 0 {
            if secs <= i64::MAX as u64 + 1 {
                let s = 0i128 - secs as i128;
                Some(Timestamp { secs: s as i64, nanos: 0 })
            } else {
                None
            }
        } else {
            if secs <= i64::MAX as u64 {
                let s = 0i128 - secs as i128 - 1;
                Some(Timestamp { secs: s as i64, nanos: NANOS_PER_SEC - nanos })
            } else {
                None
            }
        }
    }

    /// The time that a `SystemTime` stands for; `None` only for a time whose
    /// seconds from the epoch do not fit in an `i64`, which a Unix `SystemTime`
    /// cannot hold.
    pub fn from_system_time(t: SystemTime) -> (res: Option<Timestamp>)
        ensures
            res == system_timestamp(t),
            res matches Some(ts) ==> ts.wf(),
    {
        let (before_epoch, secs, nanos) = since_epoch(&t);
        Self::from_epoch_offset(before_epoch, secs, nanos)
    }

    /// The current time of the system clock: the time that the `SystemTime`
    /// the clock gave stands for. Which time that is, the clock decides.
    pub fn now() -> (res: Option<Timestamp>)
        ensures
            exists|t: SystemTime| res == system_timestamp(t),
            res matches Some(ts) ==> ts.wf(),
    {
        let clock = system_now();
        let res = Self::from_system_time(clock);
        assert(res == system_timestamp(clock));
        res
    }
}

/// What `SystemTime::duration_since(UNIX_EPOCH)` gives for `t`: whether `t`
/// lies before the epoch, and its distance from the epoch in whole seconds
/// and the nanoseconds beyond them.
pub uninterp spec fn system_time_offset(t: SystemTime) -> (bool, u64, u32);

/// The time that a `SystemTime` stands for: its distance from the epoch, as
/// a [`Timestamp`] when the seconds fit.
pub open spec fn system_timestamp(t: SystemTime) -> Option<Timestamp> {
    let (before_epoch, secs, nanos) = system_time_offset(t);
    epoch_offset(before_epoch, secs, nanos)
}

/// `std::time::SystemTime`, a point in time of the system clock, held
/// opaque.
#[verifier::external_type_specification]
#[verifier::external_body]
pub struct ExSystemTime(SystemTime);

/// `SystemTime::now`: the current time of the system clock. Nothing is
/// promised of the value.
#[verifier::external_body]
fn system_now() -> SystemTime {
    SystemTime::now()
}

/// `SystemTime::duration_since(UNIX_EPOCH)`: the distance of `t` from the
/// epoch in whole seconds and the nanoseconds beyond them, and whether `t`
/// lies before the epoch (the `Err` case, whose duration is the distance).
/// The contract names the result as a function of `t` and states that the
/// nanoseconds are a fraction of a second, as the documentation of
/// `Duration::subsec_nanos` promises.
#[verifier::external_body]
fn since_epoch(t: &SystemTime) -> (res: (bool, u64, u32))
    ensures
        res == system_time_offset(*t),
        res.2 < NANOS_PER_SEC,
{
    match t.duration_since(UNIX_EPOCH) {
        Ok(d) => (false, d.as_secs(), d.subsec_nanos()),
        Err(e) => (true, e.duration().as_secs(), e.duration().subsec_nanos()),
    }
}

/// Why a time specification was refused.
#[derive(Debug, Clone, PartialEq, Eq)]
pub enum ParseTimeError {
    Empty,
    InvalidNumber,
    InvalidUnit,
    InvalidFormat,
    InvalidTimestamp,
}

/// The message of each time error.
pub open spec fn time_error_message(e: ParseTimeError) -> Seq<char> {
    match e {
        ParseTimeError::Empty => "empty time string"@,
        ParseTimeError::InvalidNumber => "invalid number"@,
        ParseTimeError::InvalidUnit => "invalid time unit"@,
        ParseTimeError::InvalidFormat => "invalid format"@,
        ParseTimeError::InvalidTimestamp => "invalid timestamp"@,
    }
}

impl ParseTimeError {
    /// The human-readable message of the error.
    pub fn to_string(&self) -> (res: String)
        ensures
            res@ == time_error_message(*self),
    {
        match self {
            ParseTimeError::Empty => String::from_str("empty time string"),
            ParseTimeError::InvalidNumber => String::from_str("invalid number"),
            ParseTimeError::InvalidUnit => String::from_str("invalid time unit"),
            ParseTimeError::InvalidFormat => String::from_str("invalid format"),
            ParseTimeError::InvalidTimestamp => String::from_str("invalid timestamp"),
        }
    }
}

/// A filter for file modification times.
#[derive(Clone, Copy, Debug, PartialEq, Eq)]
pub enum TimeFilter {
    /// Files modified before this time (older than)
    Before(Timestamp),
    /// Files modified after this time (newer than)
    After(Timestamp),
    /// Files modified strictly between these times, the earlier first
    Between(Timestamp, Timestamp),
}

/// The seconds in one of a (lowercased, trimmed) time unit.
pub open spec fn unit_seconds(u: Seq<char>) -> Option<u64> {
    if u == "s"@ || u == "sec"@ || u == "second"@ || u == "seconds"@ {
        Some(1u64)
    } else if u == "m"@ || u == "min"@ || u == "minute"@ || u == "minutes"@ {
        Some(60u64)
    } else if u == "h"@ || u == "hour"@ || u == "hours"@ {
        Some(3600u64)
    } else if u == "d"@ || u == "day"@ || u == "days"@ {
        Some(86400u64)
    } else if u == "w"@ || u == "week"@ || u == "weeks"@ {
        Some(604_800u64)
    } else if u == "y"@ || u == "year"@ || u == "years"@ {
        Some(31_536_000u64)
    } else {
        None
    }
}

/// The quantity and the seconds per unit of a relative time `<number><unit>`:
/// the text is trimmed and lowercased, the number is its leading digits (there
/// must be something after them) and the unit is the trimmed rest.
#[verifier::opaque]
pub open spec fn relative_terms(start: Seq<char>) -> Option<(u64, u64)> {
    let s = lowercase(trim(start));
    let d = digit_prefix_len(s);
    if d == s.len() {
        None
    } else {
        match parse_u64(s.take(d as int)) {
            None => None,
            Some(q) => match unit_seconds(trim(s.skip(d as int))) {
                None => None,
                Some(k) => Some((q, k)),
            },
        }
    }
}

/// The seconds that a relative time names fit in a `u64`.
pub open spec fn relative_fits(start: Seq<char>) -> bool {
    match relative_terms(start) {
        Some((q, k)) => q * k <= u64::MAX,
        None => true,
    }
}

/// The time that a relative time names, counted back from `now`.
pub open spec fn relative_time(start: Seq<char>, now: Timestamp) -> Option<Timestamp> {
    match relative_terms(start) {
        Some((q, k)) => timestamp_minus_secs(now, (q * k) as u64),
        None => None,
    }
}

/// Whether `s[i]` and `s[i + 1]` are both dots.
pub open spec fn dots_at(s: Seq<char>, i: int) -> bool {
    0 <= i && i + 1 < s.len() && s[i] == '.' && s[i + 1] == '.'
}

/// The first position of `..` in `s`.
pub open spec fn first_dots(s: Seq<char>) -> Option<int> {
    if exists|i: int| dots_at(s, i) {
        Some(choose|i: int| dots_at(s, i) && forall|j: int| 0 <= j < i ==> !dots_at(s, j))
    } else {
        None
    }
}

/// The part after a `+` or `-` prefix, or the whole text.
pub open spec fn without_sign(s: Seq<char>) -> Seq<char> {
    if s.len() > 0 && (s[0] == '+' || s[0] == '-') {
        s.drop_first()
    } else {
        s
    }
}

/// No relative time that a specification makes the parser compute
/// overflows a `u64` of seconds, whatever the clock says: in a range, the
/// second end is computed only when the first one parses.
pub open spec fn time_fits(start: Seq<char>) -> bool {
    let s = trim(start);
    if s.len() == 0 {
        true
    } else {
        match first_dots(s) {
            Some(i) => relative_fits(trim(s.take(i))) && (relative_terms(trim(s.take(i))) is Some
                ==> relative_fits(trim(s.skip(i + 2)))),
            None => relative_fits(without_sign(s)),
        }
    }
}

/// The filter of a range `A..B` whose `..` stands at `i`: strictly between the
/// two points, the earlier first.
pub open spec fn range_filter_at(s: Seq<char>, i: int, now: Timestamp) -> Option<TimeFilter> {
    match relative_time(trim(s.take(i)), now) {
        None => None,
        Some(b) => match relative_time(trim(s.skip(i + 2)), now) {
            None => None,
            Some(a) => if timestamp_lt(a, b) {
                Some(TimeFilter::Between(a, b))
            } else {
                Some(TimeFilter::Between(b, a))
            },
        },
    }
}

/// The filter of a single relative time with an optional sign: `+` for older
/// files, `-` or none for newer ones.
pub open spec fn single_filter_at(s: Seq<char>, now: Timestamp) -> Option<TimeFilter> {
    match relative_time(without_sign(s), now) {
        None => None,
        Some(t) => if s[0] == '+' {
            Some(TimeFilter::Before(t))
        } else {
            Some(TimeFilter::After(t))
        },
    }
}

/// The filter that a time specification denotes at the time `now`.
pub open spec fn time_filter_at(start: Seq<char>, now: Timestamp) -> Option<TimeFilter> {
    let s = trim(start);
    if s.len() == 0 {
        None
    } else {
        match first_dots(s) {
            Some(i) => range_filter_at(s, i, now),
            None => single_filter_at(s, now),
        }
    }
}

/// The outcome of parsing a time specification at `now`.
pub open spec fn time_parse_at(start: Seq<char>, now: Timestamp) -> Result<TimeFilter, ParseTimeError> {
    match time_filter_at(start, now) {
        Some(f) => Ok(f),
        None => Err(ParseTimeError::InvalidFormat),
    }
}

/// Whether a file modified at `t` passes the filter.
pub open spec fn time_matches(f: TimeFilter, t: Timestamp) -> bool {
    match f {
        TimeFilter::Before(cutoff) => timestamp_lt(t, cutoff),
        TimeFilter::After(cutoff) => timestamp_lt(cutoff, t),
        TimeFilter::Between(newer, older) => timestamp_lt(newer, t) && timestamp_lt(t, older),
    }
}

/// The first position of `..` in `s`.
fn find_dots(s: &Vec<char>) -> (res: Option<usize>)
    ensures
        first_dots(s@) is None <==> res is None,
        res matches Some(i) ==> first_dots(s@) == Some(i as int) && dots_at(s@, i as int),
{
    let mut i: usize = 0;
    while i < s.len()
        invariant
            0 <= i <= s.len(),
            forall|j: int| 0 <= j < i ==> !dots_at(s@, j),
        decreases s.len() - i,
    {
        if i + 1 < s.len() && s[i] == '.' && s[i + 1] == '.' {
            assert(dots_at(s@, i as int) && forall|j: int| 0 <= j < i ==> !dots_at(s@, j));
            let ghost c = choose|k: int| dots_at(s@, k) && forall|j: int| 0 <= j < k ==> !dots_at(s@, j);
            assert(c == i) by {
                if c < i {
                    assert(!dots_at(s@, c));
                } else if c > i {
                    assert(!dots_at(s@, i as int));
                }
            }
            assert(exists|k: int| dots_at(s@, k));
            assert(first_dots(s@) == Some(c));
            return Some(i);
        }
        i = i + 1;
    }
    assert(forall|j: int| !dots_at(s@, j)) by {
        assert forall|j: int| !dots_at(s@, j) by {
            if dots_at(s@, j) {
                assert(j < i);
            }
        }
    }
    None
}

impl TimeFilter {
    /// Parses a time specification at the time `now`: `-` (or no prefix) for
    /// files modified within the last span, `+` for files modified longer ago,
    /// `A..B` for files modified between the two points. Units are `s`, `m`,
    /// `h`, `d`, `w` and `y` and their long forms, in any case. Any other text,
    /// or a point before the earliest representable time, is refused with
    /// `InvalidFormat`.
    pub fn from_string_at(s: &str, now: Timestamp) -> (res: Result<TimeFilter, ParseTimeError>)
        requires
            now.wf(),
            time_fits(s@),
        ensures
            res == time_parse_at(s@, now),
    {
        let chars = str_chars(s);
        match Self::parse_args(&chars, now) {
            Some(f) => Ok(f),
            None => Err(ParseTimeError::InvalidFormat),
        }
    }

    /// Parses a time specification against the system clock; see
    /// [`TimeFilter::from_string_at`]. Fails with `InvalidFormat` too if the
    /// clock cannot be read as a [`Timestamp`].
    pub fn from_string(s: &str) -> (res: Result<TimeFilter, ParseTimeError>)
        requires
            time_fits(s@),
        ensures
            res is Ok ==> exists|now: Timestamp| now.wf() && res == time_parse_at(s@, now),
            res matches Err(e) ==> e == ParseTimeError::InvalidFormat,
            !time_terms_ok(s@) ==> res is Err,
    {
        match Timestamp::now() {
            Some(now) => {
                let r = Self::from_string_at(s, now);
                proof {
                    lemma_parse_needs_terms(s@, now);
                }
                r
            },
            None => Err(ParseTimeError::InvalidFormat),
        }
    }

    /// As [`TimeFilter::from_string_at`], for any text: `None` when a span that
    /// the text names overflows a `u64` of seconds.
    pub fn checked_from_string_at(s: &str, now: Timestamp) -> (res: Option<Result<TimeFilter, ParseTimeError>>)
        requires
            now.wf(),
        ensures
            res is None <==> !time_fits(s@),
            res matches Some(r) ==> r == time_parse_at(s@, now),
    {
        let chars = str_chars(s);
        if Self::fits(&chars) {
            Some(Self::from_string_at(s, now))
        } else {
            None
        }
    }

    /// Whether the spans that a specification names fit in a `u64` of
    /// seconds (a text that names none fits).
    pub fn spans_fit(s: &str) -> (res: bool)
        ensures
            res == time_fits(s@),
    {
        Self::fits(&str_chars(s))
    }

    /// As [`TimeFilter::from_string`], for any text: `None` when a span that
    /// the text names does not fit in a `u64` of seconds.
    pub fn checked_from_string(s: &str) -> (res: Option<Result<TimeFilter, ParseTimeError>>)
        ensures
            res is None <==> !time_fits(s@),
            res matches Some(Ok(f)) ==> exists|now: Timestamp| now.wf() && time_parse_at(s@, now)
                == Ok::<TimeFilter, ParseTimeError>(f),
            res matches Some(Err(e)) ==> e == ParseTimeError::InvalidFormat,
            time_fits(s@) && !time_terms_ok(s@) ==> res matches Some(Err(_)),
    {
        if Self::spans_fit(s) {
            Some(Self::from_string(s))
        } else {
            None
        }
    }

    /// Whether the spans of a specification fit in a `u64` of seconds.
    fn fits(start: &Vec<char>) -> (res: bool)
        ensures
            res == time_fits(start@),
    {
        let s = trim_chars(start);
        if s.len() == 0 {
            return true;
        }
        match find_dots(&s) {
            Some(i) => {
                let first = trim_chars(&sub_chars(&s, 0, i));
                assert(s@.subrange(0, i as int) =~= s@.take(i as int));
                match Self::relative_terms(&first) {
                    None => true,
                    Some((q, k)) => match q.checked_mul(k) {
                        None => false,
                        Some(_) => {
                            let second = trim_chars(&sub_chars(&s, i + 2, s.len()));
                            assert(s@.subrange(i + 2, s.len() as int) =~= s@.skip(i + 2));
                            match Self::relative_terms(&second) {
                                None => true,
                                Some((q2, k2)) => q2.checked_mul(k2).is_some(),
                            }
                        },
                    },
                }
            },
            None => {
                let rem = if s[0] == '+' || s[0] == '-' {
                    sub_chars(&s, 1, s.len())
                } else {
                    s
                };
                assert(rem@ =~= without_sign(trim(start@)));
                match Self::relative_terms(&rem) {
                    None => true,
                    Some((q, k)) => q.checked_mul(k).is_some(),
                }
            },
        }
    }

    /// Parses the specification into a filter at `now`.
    fn parse_args(start: &Vec<char>, now: Timestamp) -> (res: Option<TimeFilter>)
        requires
            now.wf(),
            time_fits(start@),
        ensures
            res == time_filter_at(start@, now),
    {
        let s = trim_chars(start);
        if s.len() == 0 {
            return None;
        }
        match find_dots(&s) {
            Some(i) => Self::parse_range(&s, i, now),
            None => Self::parse_single(&s, now),
        }
    }

    /// Parses a range `A..B` whose `..` stands at `i`.
    fn parse_range(s: &Vec<char>, i: usize, now: Timestamp) -> (res: Option<TimeFilter>)
        requires
            i + 1 < s.len(),
            relative_fits(trim(s@.take(i as int))),
            relative_terms(trim(s@.take(i as int))) is Some ==> relative_fits(
                trim(s@.skip(i + 2)),
            ),
        ensures
            res == range_filter_at(s@, i as int, now),
    {
        let before_str = trim_chars(&sub_chars(s, 0, i));
        assert(s@.subrange(0, i as int) =~= s@.take(i as int));
        let before_time = match Self::parse_relative_time(&before_str, now) {
            Some(t) => t,
            None => return None,
        };
        let after_str = trim_chars(&sub_chars(s, i + 2, s.len()));
        assert(s@.subrange(i + 2, s.len() as int) =~= s@.skip(i + 2));
        let after_time = match Self::parse_relative_time(&after_str, now) {
            Some(t) => t,
            None => return None,
        };
        let (older, newer) = if after_time.is_before(&before_time) {
            (before_time, after_time)
        } else {
            (after_time, before_time)
        };
        Some(TimeFilter::Between(newer, older))
    }

    /// Parses a single relative time with an optional sign.
    fn parse_single(s: &Vec<char>, now: Timestamp) -> (res: Option<TimeFilter>)
        requires
            s.len() > 0,
            relative_fits(without_sign(s@)),
        ensures
            res == single_filter_at(s@, now),
    {
        let plus = s[0] == '+';
        let remaining = if s[0] == '+' || s[0] == '-' {
            sub_chars(s, 1, s.len())
        } else {
            sub_chars(s, 0, s.len())
        };
        assert(remaining@ =~= without_sign(s@));
        let time = match Self::parse_relative_time(&remaining, now) {
            Some(t) => t,
            None => return None,
        };
        if plus {
            Some(TimeFilter::Before(time))
        } else {
            Some(TimeFilter::After(time))
        }
    }

    /// The quantity and the seconds per unit of a relative time.
    fn relative_terms(start: &Vec<char>) -> (res: Option<(u64, u64)>)
        ensures
            res == relative_terms(start@),
    {
        reveal(relative_terms);
        let s = lowercase_chars(&trim_chars(start));
        let digit_end = digit_prefix(&s);
        if digit_end == s.len() {
            return None;
        }
        let num_str = sub_chars(&s, 0, digit_end);
        assert(num_str@ =~= s@.take(digit_end as int));
        let quantity = match parse_digits(&num_str) {
            Some(q) => q,
            None => return None,
        };
        let unit_str = sub_chars(&s, digit_end, s.len());
        assert(unit_str@ =~= s@.skip(digit_end as int));
        let unit = trim_chars(&unit_str);
        let seconds = if is_text(&unit, "s") || is_text(&unit, "sec") || is_text(&unit, "second")
            || is_text(&unit, "seconds") {
            1u64
        } else if is_text(&unit, "m") || is_text(&unit, "min") || is_text(&unit, "minute")
            || is_text(&unit, "minutes") {
            60u64
        } else if is_text(&unit, "h") || is_text(&unit, "hour") || is_text(&unit, "hours") {
            3600u64
        } else if is_text(&unit, "d") || is_text(&unit, "day") || is_text(&unit, "days") {
            86400u64
        } else if is_text(&unit, "w") || is_text(&unit, "week") || is_text(&unit, "weeks") {
            604_800u64
        } else if is_text(&unit, "y") || is_text(&unit, "year") || is_text(&unit, "years") {
            31_536_000u64
        } else {
            return None;
        };
        Some((quantity, seconds))
    }

    /// The time that a relative time names, counted back from `now`.
    fn parse_relative_time(start: &Vec<char>, now: Timestamp) -> (res: Option<Timestamp>)
        requires
            relative_fits(start@),
        ensures
            res == relative_time(start@, now),
    {
        match Self::relative_terms(start) {
            None => None,
            Some((quantity, seconds)) => now.checked_sub_secs(quantity * seconds),
        }
    }

    /// Whether a file modified at `file_time` passes the filter: strictly
    /// before the cutoff, strictly after it, or strictly between the two times.
    pub fn matches_timestamp(&self, file_time: Timestamp) -> (res: bool)
        ensures
            res == time_matches(*self, file_time),
    {
        match *self {
            TimeFilter::Before(cutoff) => file_time.is_before(&cutoff),
            TimeFilter::After(cutoff) => cutoff.is_before(&file_time),
            TimeFilter::Between(newer, older) => {
                let after_newer = newer.is_before(&file_time);
                let before_older = file_time.is_before(&older);
                after_newer && before_older
            },
        }
    }

    /// Whether a file modified at `file_time` passes the filter; see
    /// [`TimeFilter::matches_timestamp`]. A time that no [`Timestamp`] can hold
    /// does not pass.
    pub fn matches_time(&self, file_time: SystemTime) -> (res: bool)
        ensures
            res == match system_timestamp(file_time) {
                Some(t) => time_matches(*self, t),
                None => false,
            },
    {
        match Timestamp::from_system_time(file_time) {
            Some(t) => self.matches_timestamp(t),
            None => false,
        }
    }
}

/// Every relative time that a specification consists of is well formed: the
/// syntax alone, whatever the clock says.
pub open spec fn time_terms_ok(start: Seq<char>) -> bool {
    let s = trim(start);
    s.len() > 0 && match first_dots(s) {
        Some(i) => relative_terms(trim(s.take(i))) is Some && relative_terms(trim(s.skip(i + 2))) is Some,
        None => relative_terms(without_sign(s)) is Some,
    }
}

/// A specification that parses at some time is well formed.
pub proof fn lemma_parse_needs_terms(s: Seq<char>, now: Timestamp)
    ensures
        time_filter_at(s, now) is Some ==> time_terms_ok(s),
{
}

/// A range filter matches exactly the times that both of its bounds let
/// through: newer than its newer bound and older than its older one.
pub proof fn lemma_between_is_after_and_before(newer: Timestamp, older: Timestamp, t: Timestamp)
    ensures
        time_matches(TimeFilter::Between(newer, older), t) == (time_matches(
            TimeFilter::After(newer),
            t,
        ) && time_matches(TimeFilter::Before(older), t)),
{
}


/// The two ends of a range filter are in order: its newer bound is never
/// later than its older one, whichever end the specification names first.
pub proof fn lemma_range_ends_ordered(s: Seq<char>, now: Timestamp)
    ensures
        time_filter_at(s, now) matches Some(TimeFilter::Between(newer, older)) ==> !timestamp_lt(
            older,
            newer,
        ),
{
}

/// Where the first `..` of `a + ".." + b` stands when neither part holds a
/// dot: just after `a`.
proof fn lemma_first_dots_between(a: Seq<char>, b: Seq<char>)
    requires
        forall|k: int| 0 <= k < a.len() ==> a[k] != '.',
    ensures
        first_dots(a + ".."@ + b) == Some(a.len() as int),
{
    reveal_strlit("..");
    let s = a + ".."@ + b;
    let n = a.len() as int;
    assert(s[n] == '.' && s[n + 1] == '.');
    assert(dots_at(s, n));
    assert forall|j: int| 0 <= j < n implies !dots_at(s, j) by {
        assert(s[j] == a[j]);
    }
    let i = choose|i: int| dots_at(s, i) && forall|j: int| 0 <= j < i ==> !dots_at(s, j);
    if i < n {
        assert(s[i] == a[i]);
    }
    if i > n {
        assert(!dots_at(s, n));
    }
}

/// The text `a + ".." + b` with no white space at its ends is its own trim.
proof fn lemma_trim_range_text(a: Seq<char>, b: Seq<char>)
    requires
        a.len() > 0,
        b.len() > 0,
        !crate::text::is_unicode_whitespace(a[0]),
        !crate::text::is_unicode_whitespace(b.last()),
    ensures
        trim(a + ".."@ + b) == a + ".."@ + b,
{
    reveal_strlit("..");
    let s = a + ".."@ + b;
    assert(s[0] == a[0]);
    assert(s.last() == b.last());
    assert(crate::text::trim_start(s) == s);
    assert(crate::text::trim_end(s) == s);
}

/// The order in which a range names its two ends does not matter: `a..b`
/// and `b..a` give the same filter, at any time, and so the same result of
/// [`TimeFilter::from_string_at`]. (The ends are relative
/// times, which hold no dot, and the whole text has no white space at its
/// ends.)
#[verifier::spinoff_prover]
#[verifier::rlimit(40)]
pub proof fn lemma_range_order_irrelevant(a: Seq<char>, b: Seq<char>, now: Timestamp)
    requires
        a.len() > 0,
        b.len() > 0,
        forall|k: int| 0 <= k < a.len() ==> a[k] != '.',
        forall|k: int| 0 <= k < b.len() ==> b[k] != '.',
        !crate::text::is_unicode_whitespace(a[0]),
        !crate::text::is_unicode_whitespace(a.last()),
        !crate::text::is_unicode_whitespace(b[0]),
        !crate::text::is_unicode_whitespace(b.last()),
    ensures
        time_filter_at(a + ".."@ + b, now) == time_filter_at(b + ".."@ + a, now),
        time_parse_at(a + ".."@ + b, now) == time_parse_at(b + ".."@ + a, now),
{
    reveal_strlit("..");
    let ab = a + ".."@ + b;
    let ba = b + ".."@ + a;
    lemma_first_dots_between(a, b);
    lemma_first_dots_between(b, a);
    lemma_trim_range_text(a, b);
    lemma_trim_range_text(b, a);
    assert(ab.take(a.len() as int) =~= a);
    assert(ab.skip(a.len() as int + 2) =~= b);
    assert(ba.take(b.len() as int) =~= b);
    assert(ba.skip(b.len() as int + 2) =~= a);
    assert(ab.len() > 0 && ba.len() > 0);
    match (relative_time(trim(a), now), relative_time(trim(b), now)) {
        (Some(x), Some(y)) => {
            if !timestamp_lt(x, y) && !timestamp_lt(y, x) {
                assert(x == y);
            }
        },
        _ => {},
    }
}


/// A unit name of a relative time, once lowercased: the names of seconds,
/// minutes, hours, days, weeks and years.
pub open spec fn is_time_unit_name(u: Seq<char>) -> bool {
    ||| u == "s"@ || u == "sec"@ || u == "second"@ || u == "seconds"@
    ||| u == "m"@ || u == "min"@ || u == "minute"@ || u == "minutes"@
    ||| u == "h"@ || u == "hour"@ || u == "hours"@
    ||| u == "d"@ || u == "day"@ || u == "days"@
    ||| u == "w"@ || u == "week"@ || u == "weeks"@
    ||| u == "y"@ || u == "year"@ || u == "years"@
}

/// A unit name starts and ends with a letter.
proof fn lemma_unit_name_letters(u: Seq<char>)
    requires
        is_time_unit_name(u),
    ensures
        u.len() > 0,
        !crate::text::is_digit(u[0]),
        !crate::text::is_unicode_whitespace(u[0]),
        !crate::text::is_unicode_whitespace(u.last()),
{
    reveal_strlit("s");
    reveal_strlit("sec");
    reveal_strlit("second");
    reveal_strlit("seconds");
    reveal_strlit("m");
    reveal_strlit("min");
    reveal_strlit("minute");
    reveal_strlit("minutes");
    reveal_strlit("h");
    reveal_strlit("hour");
    reveal_strlit("hours");
    reveal_strlit("d");
    reveal_strlit("day");
    reveal_strlit("days");
    reveal_strlit("w");
    reveal_strlit("week");
    reveal_strlit("weeks");
    reveal_strlit("y");
    reveal_strlit("year");
    reveal_strlit("years");
}

/// A relative time counts whole units back from `now`: a number `n`
/// followed by a unit name (in any case, with white space around it) names
/// `n` seconds, minutes of 60 seconds, hours of 3600, days of 86400, weeks
/// of 604800 or years of 31536000 seconds before `now`.
pub proof fn lemma_relative_time_units(s: Seq<char>, n: Seq<char>, unit: Seq<char>, now: Timestamp)
    requires
        n.len() > 0,
        forall|i: int| 0 <= i < n.len() ==> crate::text::is_digit(#[trigger] n[i]),
        crate::text::decimal_value(n) <= u64::MAX,
        is_time_unit_name(unit),
        lowercase(trim(s)) == n + unit,
    ensures
        (unit == "s"@ || unit == "sec"@ || unit == "second"@ || unit == "seconds"@)
            ==> relative_time(s, now) == timestamp_minus_secs(now, crate::text::decimal_value(n) as u64),
        (unit == "m"@ || unit == "min"@ || unit == "minute"@ || unit == "minutes"@)
            ==> relative_time(s, now) == timestamp_minus_secs(now, (crate::text::decimal_value(n) * 60) as u64),
        (unit == "h"@ || unit == "hour"@ || unit == "hours"@)
            ==> relative_time(s, now) == timestamp_minus_secs(now, (crate::text::decimal_value(n) * 3600) as u64),
        (unit == "d"@ || unit == "day"@ || unit == "days"@)
            ==> relative_time(s, now) == timestamp_minus_secs(now, (crate::text::decimal_value(n) * 86400) as u64),
        (unit == "w"@ || unit == "week"@ || unit == "weeks"@)
            ==> relative_time(s, now) == timestamp_minus_secs(now, (crate::text::decimal_value(n) * 604800) as u64),
        (unit == "y"@ || unit == "year"@ || unit == "years"@)
            ==> relative_time(s, now) == timestamp_minus_secs(now, (crate::text::decimal_value(n) * 31536000) as u64),
{
    reveal(relative_terms);
    reveal_strlit("s");
    reveal_strlit("sec");
    reveal_strlit("second");
    reveal_strlit("seconds");
    reveal_strlit("m");
    reveal_strlit("min");
    reveal_strlit("minute");
    reveal_strlit("minutes");
    reveal_strlit("h");
    reveal_strlit("hour");
    reveal_strlit("hours");
    reveal_strlit("d");
    reveal_strlit("day");
    reveal_strlit("days");
    reveal_strlit("w");
    reveal_strlit("week");
    reveal_strlit("weeks");
    reveal_strlit("y");
    reveal_strlit("year");
    reveal_strlit("years");
    lemma_unit_name_letters(unit);
    let text = n + unit;
    assert forall|k: int| 0 <= k < n.len() implies crate::text::is_digit(#[trigger] text[k]) by {
        assert(text[k] == n[k]);
    }
    assert(text[n.len() as int] == unit[0]);
    crate::text::lemma_digit_prefix(text, n.len() as int);
    assert(text.take(n.len() as int) =~= n);
    assert(text.skip(n.len() as int) =~= unit);
    assert(crate::text::trim_start(unit) == unit);
    assert(crate::text::trim_end(unit) == unit);
    assert(trim(unit) == unit);
    let q = crate::text::decimal_value(n);
    assert(crate::text::parse_u64(n) == Some(q as u64));
    assert(relative_terms(s) == Some((q as u64, unit_seconds(unit)->Some_0)));
    assert((q as u64) * 1 == q);
}

/// The sign of a single relative time chooses the filter: `-` (or no sign)
/// keeps what was modified after the time it names, `+` what was modified
/// before it.
pub proof fn lemma_signed_time_filter(s: Seq<char>, t: Seq<char>, now: Timestamp)
    requires
        t.len() > 0,
        forall|i: int| 0 <= i < t.len() ==> #[trigger] t[i] != '.',
        trim(s) == seq!['-'] + t || trim(s) == seq!['+'] + t,
        relative_time(t, now) is Some,
    ensures
        trim(s) == seq!['-'] + t ==> time_filter_at(s, now) == Some(
            TimeFilter::After(relative_time(t, now)->Some_0),
        ),
        trim(s) == seq!['+'] + t ==> time_filter_at(s, now) == Some(
            TimeFilter::Before(relative_time(t, now)->Some_0),
        ),
{
    let x = trim(s);
    assert(x[0] == '-' || x[0] == '+');
    assert(x.drop_first() =~= t);
    assert forall|i: int| 0 <= i < x.len() implies !dots_at(x, i) by {
        if i >= 1 {
            assert(x[i] == t[i - 1]);
        } else if i + 1 < x.len() {
            assert(x[1] == t[0]);
        }
    }
    assert(first_dots(x) is None);
}

} // verus!
