//! Filtering files by size: `[+|-|=]<number>[unit]`.
use vstd::prelude::*;
use crate::text::{
    digit_prefix, digit_prefix_len, lowercase, lowercase_chars, parse_digits, parse_u64, str_chars,
    sub_chars, trim, trim_chars, is_text,
};

verus! {

/// One kilobyte (1000 bytes).
pub const KILO: u64 = 1000;
/// One megabyte.
pub const MEGA: u64 = 1_000_000;
/// One gigabyte.
pub const GIGA: u64 = 1_000_000_000;
/// One terabyte.
pub const TERA: u64 = 1_000_000_000_000;
/// One kibibyte (1024 bytes).
pub const KIBI: u64 = 1024;
/// One mebibyte.
pub const MEBI: u64 = 1_048_576;
/// One gibibyte.
pub const GIBI: u64 = 1_073_741_824;
/// One tebibyte.
pub const TEBI: u64 = 1_099_511_627_776;

/// Why a size specification was refused.
#[derive(Debug, Clone, PartialEq, Eq)]
pub enum ParseSizeError {
    Empty,
    InvalidNumber,
    InvalidUnit,
    InvalidFormat,
}

/// The message of each size error.
pub open spec fn size_error_message(e: ParseSizeError) -> Seq<char> {
    match e {
        ParseSizeError::Empty => "empty size string"@,
        ParseSizeError::InvalidNumber => "invalid number"@,
        ParseSizeError::InvalidUnit => "invalid unit"@,
        ParseSizeError::InvalidFormat => "invalid format"@,
    }
}

impl ParseSizeError {
    /// The human-readable message of the error.
    pub fn to_string(&self) -> (res: String)
        ensures
            res@ == size_error_message(*self),
    {
        match self {
            ParseSizeError::Empty => String::from_str("empty size string"),
            ParseSizeError::InvalidNumber => String::from_str("invalid number"),
            ParseSizeError::InvalidUnit => String::from_str("invalid unit"),
            ParseSizeError::InvalidFormat => String::from_str("invalid format"),
        }
    }
}

/// A filter for file sizes.
#[derive(Clone, Copy, Debug, PartialEq, Eq)]
pub enum SizeFilter {
    /// Maximum size (inclusive): files must be <= this size
    Max(u64),
    /// Minimum size (inclusive): files must be >= this size
    Min(u64),
    /// Exact size: files must be exactly this size
    Equals(u64),
}

/// The multiplier that a (lowercased, trimmed) unit names.
pub open spec fn multiplier_of_unit(u: Seq<char>) -> Option<u64> {
    if u == "b"@ {
        Some(1u64)
    } else if u == "k"@ || u == "kb"@ {
        Some(KILO)
    } else if u == "ki"@ || u == "kib"@ {
        Some(KIBI)
    } else if u == "m"@ || u == "mb"@ {
        Some(MEGA)
    } else if u == "mi"@ || u == "mib"@ {
        Some(MEBI)
    } else if u == "g"@ || u == "gb"@ {
        Some(GIGA)
    } else if u == "gi"@ || u == "gib"@ {
        Some(GIBI)
    } else if u == "t"@ || u == "tb"@ {
        Some(TERA)
    } else if u == "ti"@ || u == "tib"@ {
        Some(TEBI)
    } else {
        None
    }
}

/// The multiplier of a unit text: trimmed and lowercased first.
pub open spec fn size_unit_multiplier(unit: Seq<char>) -> Option<u64> {
    multiplier_of_unit(lowercase(trim(unit)))
}

/// The quantity and the unit of a size text: the leading digits of the
/// trimmed, lowercased text and the rest, or `b` when there is no rest.
pub open spec fn size_parts(start: Seq<char>) -> Option<(u64, Seq<char>)> {
    let s = lowercase(trim(start));
    let d = digit_prefix_len(s);
    if d == s.len() {
        match parse_u64(s) {
            Some(q) => Some((q, "b"@)),
            None => None,
        }
    } else {
        match parse_u64(s.take(d as int)) {
            Some(q) => Some((q, s.skip(d as int))),
            None => None,
        }
    }
}

/// The kind of limit (`1` for a `+` prefix, `2` for `-`, `0` for `=` or
/// none), the quantity and the unit's multiplier of a size specification, or
/// why it is refused: `Empty` for a blank text, `InvalidNumber` when no
/// number leads it, `InvalidUnit` for an unknown unit.
pub open spec fn size_parse(start: Seq<char>) -> Result<(u8, u64, u64), ParseSizeError> {
    let s = trim(start);
    if s.len() == 0 {
        Err(ParseSizeError::Empty)
    } else {
        let kind: u8 = if s[0] == '+' {
            1
        } else if s[0] == '-' {
            2
        } else {
            0
        };
        let rem = if s[0] == '+' || s[0] == '-' || s[0] == '=' {
            s.drop_first()
        } else {
            s
        };
        match size_parts(rem) {
            None => Err(ParseSizeError::InvalidNumber),
            Some((q, unit)) => match size_unit_multiplier(unit) {
                None => Err(ParseSizeError::InvalidUnit),
                Some(m) => Ok((kind, q, m)),
            },
        }
    }
}

/// The terms of a size specification that parses.
pub open spec fn size_terms(start: Seq<char>) -> Option<(u8, u64, u64)> {
    match size_parse(start) {
        Ok(t) => Some(t),
        Err(_) => None,
    }
}

/// The size in bytes that a specification names fits in a `u64`.
pub open spec fn size_fits(start: Seq<char>) -> bool {
    match size_terms(start) {
        Some((_, q, m)) => q * m <= u64::MAX,
        None => true,
    }
}

/// The filter that a size specification denotes.
pub open spec fn size_filter_of(start: Seq<char>) -> Option<SizeFilter> {
    match size_terms(start) {
        Some((kind, q, m)) => {
            let size = (q * m) as u64;
            Some(
                if kind == 1 {
                    SizeFilter::Min(size)
                } else if kind == 2 {
                    SizeFilter::Max(size)
                } else {
                    SizeFilter::Equals(size)
                },
            )
        },
        None => None,
    }
}

/// What parsing a size specification gives: its filter, or why it is
/// refused.
pub open spec fn size_result(start: Seq<char>) -> Result<SizeFilter, ParseSizeError> {
    match size_parse(start) {
        Err(e) => Err(e),
        Ok(_) => Ok(size_filter_of(start)->Some_0),
    }
}

impl SizeFilter {
    /// Parses a size specification `[+|-|=]<number>[unit]`: `+` asks for at
    /// least the size, `-` for at most, `=` or no prefix for exactly. Units are
    /// `b`, `k`/`kb`, `ki`/`kib`, `m`/`mb`, `mi`/`mib`, `g`/`gb`, `gi`/`gib`,
    /// `t`/`tb`, `ti`/`tib`, in any case; no unit means bytes. A blank text is
    /// refused with `Empty`, one without a leading number with
    /// `InvalidNumber`, one with an unknown unit with `InvalidUnit`.
    pub fn from_string(s: &str) -> (res: Result<SizeFilter, ParseSizeError>)
        requires
            size_fits(s@),
        ensures
            res == size_result(s@),
    {
        let chars = str_chars(s);
        Self::parse_args(&chars)
    }

    /// Whether the size that a specification names fits in a `u64` (a text
    /// that names no size fits).
    pub fn fits(s: &str) -> (res: bool)
        ensures
            res == size_fits(s@),
    {
        let chars = str_chars(s);
        match Self::terms(&chars) {
            Err(_) => true,
            Ok((_, q, m)) => q.checked_mul(m).is_some(),
        }
    }

    /// As [`SizeFilter::from_string`], for any text: `None` when the size that
    /// the text names does not fit in a `u64`.
    pub fn checked_from_string(s: &str) -> (res: Option<Result<SizeFilter, ParseSizeError>>)
        ensures
            res is None <==> !size_fits(s@),
            res matches Some(r) ==> r == size_result(s@),
    {
        if Self::fits(s) {
            Some(Self::from_string(s))
        } else {
            None
        }
    }

    /// The filter of a kind of limit and a size.
    fn with_limit(kind: u8, size: u64) -> (res: SizeFilter)
        ensures
            res == (if kind == 1 {
                SizeFilter::Min(size)
            } else if kind == 2 {
                SizeFilter::Max(size)
            } else {
                SizeFilter::Equals(size)
            }),
    {
        if kind == 1 {
            SizeFilter::Min(size)
        } else if kind == 2 {
            SizeFilter::Max(size)
        } else {
            SizeFilter::Equals(size)
        }
    }

    /// The kind of limit, the quantity and the multiplier of a specification.
    fn terms(start: &Vec<char>) -> (res: Result<(u8, u64, u64), ParseSizeError>)
        ensures
            res == size_parse(start@),
    {
        let s = trim_chars(start);
        if s.len() == 0 {
            return Err(ParseSizeError::Empty);
        }
        let (kind, remaining): (u8, Vec<char>) = if s[0] == '+' {
            (1, sub_chars(&s, 1, s.len()))
        } else if s[0] == '-' {
            (2, sub_chars(&s, 1, s.len()))
        } else if s[0] == '=' {
            (0, sub_chars(&s, 1, s.len()))
        } else {
            (0, s)
        };
        assert(s@[0] == '+' || s@[0] == '-' || s@[0] == '=' ==> remaining@ =~= trim(start@).drop_first());
        let (quantity, unit) = match Self::parse_size_parts(&remaining) {
            Some(p) => p,
            None => return Err(ParseSizeError::InvalidNumber),
        };
        let multiplier = match Self::unit_multiplier(&unit) {
            Some(m) => m,
            None => return Err(ParseSizeError::InvalidUnit),
        };
        Ok((kind, quantity, multiplier))
    }

    /// Parses the trimmed specification into a filter.
    fn parse_args(start: &Vec<char>) -> (res: Result<SizeFilter, ParseSizeError>)
        requires
            size_fits(start@),
        ensures
            res == size_result(start@),
    {
        match Self::terms(start) {
            Err(e) => Err(e),
            Ok((kind, quantity, multiplier)) => {
                let size = quantity * multiplier;
                Ok(Self::with_limit(kind, size))
            },
        }
    }

    /// Splits a size text into its leading number and its unit.
    fn parse_size_parts(start: &Vec<char>) -> (res: Option<(u64, Vec<char>)>)
        ensures
            match size_parts(start@) {
                Some((q, unit)) => res matches Some((q2, u2)) && q2 == q && u2@ == unit,
                None => res is None,
            },
    {
        let s = lowercase_chars(&trim_chars(start));
        let digit_end = digit_prefix(&s);
        if digit_end == s.len() {
            let quantity = match parse_digits(&s) {
                Some(q) => q,
                None => return None,
            };
            return Some((quantity, str_chars("b")));
        }
        let num_str = sub_chars(&s, 0, digit_end);
        let unit_str = sub_chars(&s, digit_end, s.len());
        assert(num_str@ =~= s@.take(digit_end as int));
        assert(unit_str@ =~= s@.skip(digit_end as int));
        let quantity = match parse_digits(&num_str) {
            Some(q) => q,
            None => return None,
        };
        Some((quantity, unit_str))
    }

    /// The multiplier that a unit names, if any.
    fn unit_multiplier(unit: &Vec<char>) -> (res: Option<u64>)
        ensures
            res == size_unit_multiplier(unit@),
    {
        let u = lowercase_chars(&trim_chars(unit));
        if is_text(&u, "b") {
            Some(1)
        } else if is_text(&u, "k") || is_text(&u, "kb") {
            Some(KILO)
        } else if is_text(&u, "ki") || is_text(&u, "kib") {
            Some(KIBI)
        } else if is_text(&u, "m") || is_text(&u, "mb") {
            Some(MEGA)
        } else if is_text(&u, "mi") || is_text(&u, "mib") {
            Some(MEBI)
        } else if is_text(&u, "g") || is_text(&u, "gb") {
            Some(GIGA)
        } else if is_text(&u, "gi") || is_text(&u, "gib") {
            Some(GIBI)
        } else if is_text(&u, "t") || is_text(&u, "tb") {
            Some(TERA)
        } else if is_text(&u, "ti") || is_text(&u, "tib") {
            Some(TEBI)
        } else {
            None
        }
    }

    /// Whether a size passes the filter: at most, at least or exactly the limit.
    pub fn is_within_size(&self, size: u64) -> (res: bool)
        ensures
            res == match *self {
                SizeFilter::Max(limit) => size <= limit,
                SizeFilter::Min(limit) => size >= limit,
                SizeFilter::Equals(limit) => size == limit,
            },
    {
        match *self {
            SizeFilter::Max(limit) => size <= limit,
            SizeFilter::Min(limit) => size >= limit,
            SizeFilter::Equals(limit) => size == limit,
        }
    }
}

} // verus!
