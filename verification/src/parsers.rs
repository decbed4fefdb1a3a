//! What the command-line parsers of the filters answer: the value parsed, or
//! the message, suggestions and explanations that a refused value is met
//! with, and the values offered for completion.
use vstd::prelude::*;
use crate::file_type::FileTypeFilter;
use crate::size_filter::{size_error_message, size_result, size_fits, ParseSizeError, SizeFilter};
use crate::text::{is_text, lowercase, str_chars, string_from_chars, to_lowercase};
use crate::time_filter::{
    time_error_message, time_fits, time_parse_at, time_terms_ok, ParseTimeError, TimeFilter,
    Timestamp,
};

verus! {

/// The texts of a list of strings.
pub open spec fn texts(v: Seq<String>) -> Seq<Seq<char>> {
    v.map_values(|s: String| s@)
}

/// The texts of a list of string slices.
pub open spec fn literal_texts(v: Seq<&str>) -> Seq<Seq<char>> {
    v.map_values(|s: &str| s@)
}

/// Owned copies of a list of string slices.
fn owned_all(lits: &[&str]) -> (res: Vec<String>)
    ensures
        texts(res@) == literal_texts(lits@),
{
    let mut v: Vec<String> = Vec::new();
    let mut i: usize = 0;
    while i < lits.len()
        invariant
            i <= lits.len(),
            texts(v@) == literal_texts(lits@.take(i as int)),
        decreases lits.len() - i,
    {
        let ghost before = v@;
        let item = lits[i].to_owned();
        v.push(item);
        proof {
            assert(v@ == before.push(item));
            assert(lits@.take(i + 1) == lits@.take(i as int).push(lits@[i as int]));
            assert(texts(v@) =~= texts(before).push(item@));
            assert(literal_texts(lits@.take(i + 1)) =~= literal_texts(lits@.take(i as int)).push(
                lits@[i as int]@,
            ));
        }
        i = i + 1;
    }
    assert(lits@.take(lits.len() as int) =~= lits@);
    v
}

/// What a refused value is answered with: the main message, suggested
/// values, lines on usage and the values that are valid.
pub struct ParseFailure {
    /// The main message.
    pub message: String,
    /// Example values.
    pub suggested: Vec<String>,
    /// Lines that explain the form of a value.
    pub usage: Vec<String>,
    /// The valid values, or their units.
    pub valid: Vec<String>,
}

/// A value offered for completion: its name, other names for it, and what it
/// means.
pub struct PossibleValue {
    /// The value.
    pub name: String,
    /// Other spellings accepted for it.
    pub aliases: Vec<String>,
    /// What the value means.
    pub help: String,
}

/// The texts of an offered value.
pub open spec fn value_texts(v: PossibleValue) -> (Seq<char>, Seq<Seq<char>>, Seq<char>) {
    (v.name@, texts(v.aliases@), v.help@)
}

/// The texts of a list of offered values.
pub open spec fn values_texts(v: Seq<PossibleValue>) -> Seq<(Seq<char>, Seq<Seq<char>>, Seq<char>)> {
    v.map_values(|p: PossibleValue| value_texts(p))
}

/// An offered value from literals.
fn possible(name: &str, aliases: &[&str], help: &str) -> (res: PossibleValue)
    ensures
        value_texts(res) == (name@, literal_texts(aliases@), help@),
{
    PossibleValue { name: name.to_owned(), aliases: owned_all(aliases), help: help.to_owned() }
}

/// An offered value from literals, with no other spellings.
fn possible_plain(name: &str, help: &str) -> (res: PossibleValue)
    ensures
        value_texts(res) == (name@, Seq::<Seq<char>>::empty(), help@),
{
    let aliases: Vec<String> = Vec::new();
    assert(texts(aliases@) =~= Seq::<Seq<char>>::empty());
    PossibleValue { name: name.to_owned(), aliases, help: help.to_owned() }
}

/// Appends an offered value to a list.
fn push_value(v: &mut Vec<PossibleValue>, p: PossibleValue)
    ensures
        values_texts(final(v)@) == values_texts(old(v)@).push(value_texts(p)),
{
    let ghost before = v@;
    v.push(p);
    assert(values_texts(v@) =~= values_texts(before).push(value_texts(p)));
}

// ------------------------------------------------------------------ time

/// The example values offered when a time value is refused.
pub open spec fn time_suggestions() -> Seq<Seq<char>> {
    seq!["-1h"@, "-30m"@, "+2d"@, "+1w"@, "1d..2h"@]
}

/// The lines that explain the form of a time value.
pub open spec fn time_usage() -> Seq<Seq<char>> {
    seq![
        "Prefixes:"@,
        "  -TIME  - files modified within the last TIME (newer)"@,
        "  +TIME  - files modified more than TIME ago (older)"@,
        "   TIME  - same as -TIME (default)"@,
        "  TIME..TIME - files modified between two times"@,
    ]
}

/// The time units.
pub open spec fn time_units() -> Seq<Seq<char>> {
    seq![
        "s, sec, second, seconds"@,
        "m, min, minute, minutes"@,
        "h, hour, hours"@,
        "d, day, days"@,
        "w, week, weeks"@,
        "y, year, years"@,
    ]
}

/// The time values offered for completion.
pub open spec fn time_values() -> Seq<(Seq<char>, Seq<Seq<char>>, Seq<char>)> {
    seq![
        ("-1h"@, Seq::empty(), "modified within the last hour"@),
        ("-30m"@, Seq::empty(), "modified within the last 30 minutes"@),
        ("-1d"@, Seq::empty(), "modified within the last day"@),
        ("+2d"@, Seq::empty(), "modified more than 2 days ago"@),
        ("+1w"@, Seq::empty(), "modified more than 1 week ago"@),
        ("1d..2h"@, Seq::empty(), "modified between 1 day and 2 hours ago"@),
    ]
}

/// The answer to a refused time value.
pub open spec fn time_failure(f: ParseFailure, e: ParseTimeError) -> bool {
    &&& f.message@ == time_error_message(e)
    &&& texts(f.suggested@) == time_suggestions()
    &&& texts(f.usage@) == time_usage()
    &&& texts(f.valid@) == time_units()
}

/// The example values offered when a time value is refused.
fn time_suggested() -> (res: Vec<String>)
    ensures
        texts(res@) == time_suggestions(),
{
    let res = owned_all(&["-1h", "-30m", "+2d", "+1w", "1d..2h"]);
    res
}

/// The lines that explain the form of a time value.
fn time_usage_lines() -> (res: Vec<String>)
    ensures
        texts(res@) == time_usage(),
{
    let res = owned_all(
        &[
            "Prefixes:",
            "  -TIME  - files modified within the last TIME (newer)",
            "  +TIME  - files modified more than TIME ago (older)",
            "   TIME  - same as -TIME (default)",
            "  TIME..TIME - files modified between two times",
        ],
    );
    res
}

/// The time units.
fn time_unit_lines() -> (res: Vec<String>)
    ensures
        texts(res@) == time_units(),
{
    let res = owned_all(
        &[
            "s, sec, second, seconds",
            "m, min, minute, minutes",
            "h, hour, hours",
            "d, day, days",
            "w, week, weeks",
            "y, year, years",
        ],
    );
    res
}

/// The command-line parser of time filters.
#[derive(Clone, Debug)]
pub struct TimeFilterParser;

impl TimeFilterParser {
    /// Parses a time value against the system clock, as
    /// [`TimeFilter::from_string`] does; a refused value is answered with the
    /// error's message, examples, an explanation of the prefixes and the units.
    pub fn parse_ref(&self, value: &str) -> (res: Result<TimeFilter, ParseFailure>)
        requires
            time_fits(value@),
        ensures
            res matches Ok(f) ==> exists|now: Timestamp| now.wf() && time_parse_at(value@, now)
                == Ok::<TimeFilter, ParseTimeError>(f),
            res matches Err(fail) ==> time_failure(fail, ParseTimeError::InvalidFormat),
            !time_terms_ok(value@) ==> res is Err,
    {
        match TimeFilter::from_string(value) {
            Ok(filter) => Ok(filter),
            Err(err) => Err(ParseFailure {
                message: err.to_string(),
                suggested: time_suggested(),
                usage: time_usage_lines(),
                valid: time_unit_lines(),
            }),
        }
    }

    /// As [`TimeFilterParser::parse_ref`], for any value: `None` when a span
    /// that it names does not fit in a `u64` of seconds.
    pub fn checked_parse_ref(&self, value: &str) -> (res: Option<Result<TimeFilter, ParseFailure>>)
        ensures
            res is None <==> !time_fits(value@),
            res matches Some(Ok(f)) ==> exists|now: Timestamp| now.wf() && time_parse_at(value@, now)
                == Ok::<TimeFilter, ParseTimeError>(f),
            res matches Some(Err(fail)) ==> time_failure(fail, ParseTimeError::InvalidFormat),
            time_fits(value@) && !time_terms_ok(value@) ==> res matches Some(Err(_)),
    {
        if TimeFilter::spans_fit(value) {
            Some(self.parse_ref(value))
        } else {
            None
        }
    }

    /// The time values offered for completion, with what each means.
    pub fn possible_values(&self) -> (res: Vec<PossibleValue>)
        ensures
            values_texts(res@) == time_values(),
    {
        let mut v: Vec<PossibleValue> = Vec::new();
        push_value(&mut v, possible_plain("-1h", "modified within the last hour"));
        push_value(&mut v, possible_plain("-30m", "modified within the last 30 minutes"));
        push_value(&mut v, possible_plain("-1d", "modified within the last day"));
        push_value(&mut v, possible_plain("+2d", "modified more than 2 days ago"));
        push_value(&mut v, possible_plain("+1w", "modified more than 1 week ago"));
        push_value(&mut v, possible_plain("1d..2h", "modified between 1 day and 2 hours ago"));
        assert(values_texts(v@) =~= time_values());
        v
    }
}

// ------------------------------------------------------------------ size

/// The example values offered when a size value is refused.
pub open spec fn size_suggestions() -> Seq<Seq<char>> {
    seq!["100"@, "1k"@, "+1m"@, "-500k"@, "+10mb"@, "-2gib"@]
}

/// The lines that explain the form of a size value.
pub open spec fn size_usage() -> Seq<Seq<char>> {
    seq![
        "Prefixes:"@,
        "  +SIZE  - files larger than SIZE"@,
        "  -SIZE  - files smaller than SIZE"@,
        "   SIZE  - files exactly SIZE (default)"@,
    ]
}

/// The size units.
pub open spec fn size_units() -> Seq<Seq<char>> {
    seq![
        "b"@,
        "k, kb"@,
        "ki, kib"@,
        "m, mb"@,
        "mi, mib"@,
        "g, gb"@,
        "gi, gib"@,
        "t, tb"@,
        "ti, tib"@,
    ]
}

/// The size values offered for completion.
pub open spec fn size_values() -> Seq<(Seq<char>, Seq<Seq<char>>, Seq<char>)> {
    seq![
        ("100"@, Seq::empty(), "exactly 100 bytes"@),
        ("1k"@, Seq::empty(), "exactly 1 kilobyte (1000 bytes)"@),
        ("1ki"@, Seq::empty(), "exactly 1 kibibyte (1024 bytes)"@),
        ("10mb"@, Seq::empty(), "exactly 10 megabytes"@),
        ("1gb"@, Seq::empty(), "exactly 1 gigabyte"@),
        ("+1m"@, Seq::empty(), "larger than 1MB"@),
        ("+10mb"@, Seq::empty(), "larger than 10MB"@),
        ("+1gib"@, Seq::empty(), "larger than 1GiB"@),
        ("-500k"@, Seq::empty(), "smaller than 500KB"@),
        ("-10mb"@, Seq::empty(), "smaller than 10MB"@),
        ("-1gib"@, Seq::empty(), "smaller than 1GiB"@),
    ]
}

/// The answer to a refused size value.
pub open spec fn size_failure(f: ParseFailure, e: ParseSizeError) -> bool {
    &&& f.message@ == size_error_message(e)
    &&& texts(f.suggested@) == size_suggestions()
    &&& texts(f.usage@) == size_usage()
    &&& texts(f.valid@) == size_units()
}

/// The example values offered when a size value is refused.
fn size_suggested() -> (res: Vec<String>)
    ensures
        texts(res@) == size_suggestions(),
{
    let res = owned_all(&["100", "1k", "+1m", "-500k", "+10mb", "-2gib"]);
    res
}

/// The lines that explain the form of a size value.
fn size_usage_lines() -> (res: Vec<String>)
    ensures
        texts(res@) == size_usage(),
{
    let res = owned_all(
        &[
            "Prefixes:",
            "  +SIZE  - files larger than SIZE",
            "  -SIZE  - files smaller than SIZE",
            "   SIZE  - files exactly SIZE (default)",
        ],
    );
    res
}

/// The size units.
fn size_unit_lines() -> (res: Vec<String>)
    ensures
        texts(res@) == size_units(),
{
    let res = owned_all(
        &["b", "k, kb", "ki, kib", "m, mb", "mi, mib", "g, gb", "gi, gib", "t, tb", "ti, tib"],
    );
    res
}

/// The command-line parser of size filters.
#[derive(Clone, Debug)]
pub struct SizeFilterParser;

impl SizeFilterParser {
    /// Parses a size value as [`SizeFilter::from_string`] does; a refused
    /// value is answered with the error's message, examples, an explanation
    /// of the prefixes and the units.
    pub fn parse_ref(&self, value: &str) -> (res: Result<SizeFilter, ParseFailure>)
        requires
            size_fits(value@),
        ensures
            match size_result(value@) {
                Ok(f) => res == Ok::<SizeFilter, ParseFailure>(f),
                Err(e) => res matches Err(fail) && size_failure(fail, e),
            },
    {
        match SizeFilter::from_string(value) {
            Ok(filter) => Ok(filter),
            Err(err) => Err(ParseFailure {
                message: err.to_string(),
                suggested: size_suggested(),
                usage: size_usage_lines(),
                valid: size_unit_lines(),
            }),
        }
    }

    /// As [`SizeFilterParser::parse_ref`], for any value: `None` when the size
    /// that it names does not fit in a `u64`.
    pub fn checked_parse_ref(&self, value: &str) -> (res: Option<Result<SizeFilter, ParseFailure>>)
        ensures
            res is None <==> !size_fits(value@),
            res matches Some(r) ==> match size_result(value@) {
                Ok(f) => r == Ok::<SizeFilter, ParseFailure>(f),
                Err(e) => r matches Err(fail) && size_failure(fail, e),
            },
    {
        if SizeFilter::fits(value) {
            Some(self.parse_ref(value))
        } else {
            None
        }
    }

    /// The size values offered for completion, with what each means.
    pub fn possible_values(&self) -> (res: Vec<PossibleValue>)
        ensures
            values_texts(res@) == size_values(),
    {
        let mut v: Vec<PossibleValue> = Vec::new();
        push_value(&mut v, possible_plain("100", "exactly 100 bytes"));
        push_value(&mut v, possible_plain("1k", "exactly 1 kilobyte (1000 bytes)"));
        push_value(&mut v, possible_plain("1ki", "exactly 1 kibibyte (1024 bytes)"));
        push_value(&mut v, possible_plain("10mb", "exactly 10 megabytes"));
        push_value(&mut v, possible_plain("1gb", "exactly 1 gigabyte"));
        push_value(&mut v, possible_plain("+1m", "larger than 1MB"));
        push_value(&mut v, possible_plain("+10mb", "larger than 10MB"));
        push_value(&mut v, possible_plain("+1gib", "larger than 1GiB"));
        push_value(&mut v, possible_plain("-500k", "smaller than 500KB"));
        push_value(&mut v, possible_plain("-10mb", "smaller than 10MB"));
        push_value(&mut v, possible_plain("-1gib", "smaller than 1GiB"));
        assert(values_texts(v@) =~= size_values());
        v
    }
}

// ------------------------------------------------------------- file type

/// The file type filter that a (lower case) name selects.
pub open spec fn file_type_by_name(n: Seq<char>) -> Option<FileTypeFilter> {
    if n == "d"@ || n == "dir"@ || n == "hardlink"@ || n == "directory"@ {
        Some(FileTypeFilter::Directory)
    } else if n == "u"@ || n == "unknown"@ {
        Some(FileTypeFilter::Unknown)
    } else if n == "l"@ || n == "symlink"@ || n == "link"@ {
        Some(FileTypeFilter::Symlink)
    } else if n == "f"@ || n == "file"@ || n == "regular"@ {
        Some(FileTypeFilter::File)
    } else if n == "p"@ || n == "pipe"@ || n == "fifo"@ {
        Some(FileTypeFilter::Pipe)
    } else if n == "c"@ || n == "char"@ || n == "chardev"@ || n == "chardevice"@ {
        Some(FileTypeFilter::CharDevice)
    } else if n == "b"@ || n == "block"@ || n == "blockdev"@ || n == "blockdevice"@
        || n == "block-device"@ {
        Some(FileTypeFilter::BlockDevice)
    } else if n == "s"@ || n == "socket"@ || n == "sock"@ {
        Some(FileTypeFilter::Socket)
    } else if n == "e"@ || n == "empty"@ {
        Some(FileTypeFilter::Empty)
    } else if n == "x"@ || n == "exec"@ || n == "exe"@ || n == "executable"@ {
        Some(FileTypeFilter::Executable)
    } else {
        None
    }
}

/// The example values offered when a file type is refused.
pub open spec fn file_type_suggestions() -> Seq<Seq<char>> {
    seq!["d"@, "f"@, "l"@, "s"@, "p"@]
}

/// The valid file types.
pub open spec fn file_type_names() -> Seq<Seq<char>> {
    seq![
        "d, dir, directory, hardlink"@,
        "u, unknown"@,
        "l, symlink, link"@,
        "f, file, regular"@,
        "p, pipe, fifo"@,
        "c, char, chardev"@,
        "b, block, blockdev"@,
        "s, socket"@,
        "e, empty"@,
        "x, exec, exe ,executable"@,
    ]
}

/// The message for a refused file type.
pub open spec fn invalid_file_type_message(value: Seq<char>) -> Seq<char> {
    "invalid file type: '"@ + value + "'"@
}

/// The answer to a refused file type.
pub open spec fn file_type_failure(f: ParseFailure, value: Seq<char>) -> bool {
    &&& f.message@ == invalid_file_type_message(value)
    &&& texts(f.suggested@) == file_type_suggestions()
    &&& texts(f.usage@) == Seq::<Seq<char>>::empty()
    &&& texts(f.valid@) == file_type_names()
}

/// The file type values offered for completion.
pub open spec fn file_type_values() -> Seq<(Seq<char>, Seq<Seq<char>>, Seq<char>)> {
    seq![
        ("d"@, seq!["dir"@, "directory"@, "hardlink"@], "Directory"@),
        ("u"@, seq!["unknown"@], "Unknown type"@),
        ("l"@, seq!["symlink"@, "link"@], "Symbolic link"@),
        ("f"@, seq!["file"@, "regular"@], "Regular file"@),
        ("p"@, seq!["pipe"@, "fifo"@], "Pipe/FIFO"@),
        ("c"@, seq!["char"@, "chardev"@], "Character device"@),
        ("b"@, seq!["block"@, "blockdev"@, "block-device"@], "Block device"@),
        ("s"@, seq!["socket"@, "sock"@], "Socket"@),
        ("e"@, seq!["empty"@], "Empty file"@),
        ("x"@, seq!["exec"@, "executable"@, "exe"@], "Executable file"@),
    ]
}

/// The filter that a lower case name selects.
fn filter_by_name(n: &Vec<char>) -> (res: Option<FileTypeFilter>)
    ensures
        res == file_type_by_name(n@),
{
    if is_text(n, "d") || is_text(n, "dir") || is_text(n, "hardlink") || is_text(n, "directory") {
        Some(FileTypeFilter::Directory)
    } else if is_text(n, "u") || is_text(n, "unknown") {
        Some(FileTypeFilter::Unknown)
    } else if is_text(n, "l") || is_text(n, "symlink") || is_text(n, "link") {
        Some(FileTypeFilter::Symlink)
    } else if is_text(n, "f") || is_text(n, "file") || is_text(n, "regular") {
        Some(FileTypeFilter::File)
    } else if is_text(n, "p") || is_text(n, "pipe") || is_text(n, "fifo") {
        Some(FileTypeFilter::Pipe)
    } else if is_text(n, "c") || is_text(n, "char") || is_text(n, "chardev") || is_text(
        n,
        "chardevice",
    ) {
        Some(FileTypeFilter::CharDevice)
    } else if is_text(n, "b") || is_text(n, "block") || is_text(n, "blockdev") || is_text(
        n,
        "blockdevice",
    ) || is_text(n, "block-device") {
        Some(FileTypeFilter::BlockDevice)
    } else if is_text(n, "s") || is_text(n, "socket") || is_text(n, "sock") {
        Some(FileTypeFilter::Socket)
    } else if is_text(n, "e") || is_text(n, "empty") {
        Some(FileTypeFilter::Empty)
    } else if is_text(n, "x") || is_text(n, "exec") || is_text(n, "exe") || is_text(
        n,
        "executable",
    ) {
        Some(FileTypeFilter::Executable)
    } else {
        None
    }
}

/// The message for a refused file type.
fn invalid_file_type_text(value: &str) -> (res: String)
    ensures
        res@ == invalid_file_type_message(value@),
{
    let mut chars = str_chars("invalid file type: '");
    let v = str_chars(value);
    let mut i: usize = 0;
    let ghost head = chars@;
    while i < v.len()
        invariant
            i <= v.len(),
            chars@ == head + v@.take(i as int),
        decreases v.len() - i,
    {
        chars.push(v[i]);
        i = i + 1;
        assert(chars@ =~= head + v@.take(i as int));
    }
    chars.push('\'');
    proof {
        reveal_strlit("'");
        assert(v@.take(v@.len() as int) =~= v@);
        assert(chars@ =~= invalid_file_type_message(value@));
    }
    string_from_chars(&chars)
}

/// The example values offered when a file type is refused.
fn file_type_suggested() -> (res: Vec<String>)
    ensures
        texts(res@) == file_type_suggestions(),
{
    let res = owned_all(&["d", "f", "l", "s", "p"]);
    res
}

/// The valid file types.
fn file_type_name_lines() -> (res: Vec<String>)
    ensures
        texts(res@) == file_type_names(),
{
    let res = owned_all(
        &[
            "d, dir, directory, hardlink",
            "u, unknown",
            "l, symlink, link",
            "f, file, regular",
            "p, pipe, fifo",
            "c, char, chardev",
            "b, block, blockdev",
            "s, socket",
            "e, empty",
            "x, exec, exe ,executable",
        ],
    );
    res
}

/// Parses a file type by its name, in any case.
fn parse_file_type(value: &str) -> (res: Result<FileTypeFilter, ParseFailure>)
    ensures
        match file_type_by_name(lowercase(value@)) {
            Some(f) => res == Ok::<FileTypeFilter, ParseFailure>(f),
            None => res matches Err(fail) && file_type_failure(fail, value@),
        },
{
    let lowered = to_lowercase(value);
    let name = str_chars(lowered.as_str());
    match filter_by_name(&name) {
        Some(f) => Ok(f),
        None => {
            let usage: Vec<String> = Vec::new();
            assert(texts(usage@) =~= Seq::<Seq<char>>::empty());
            Err(ParseFailure {
                message: invalid_file_type_text(value),
                suggested: file_type_suggested(),
                usage,
                valid: file_type_name_lines(),
            })
        },
    }
}

/// The file type values offered for completion.
fn file_type_possible_values() -> (res: Vec<PossibleValue>)
    ensures
        values_texts(res@) == file_type_values(),
{
    let mut v: Vec<PossibleValue> = Vec::new();
    push_value(&mut v, possible("d", &["dir", "directory", "hardlink"], "Directory"));
    push_value(&mut v, possible("u", &["unknown"], "Unknown type"));
    push_value(&mut v, possible("l", &["symlink", "link"], "Symbolic link"));
    push_value(&mut v, possible("f", &["file", "regular"], "Regular file"));
    push_value(&mut v, possible("p", &["pipe", "fifo"], "Pipe/FIFO"));
    push_value(&mut v, possible("c", &["char", "chardev"], "Character device"));
    push_value(&mut v, possible("b", &["block", "blockdev", "block-device"], "Block device"));
    push_value(&mut v, possible("s", &["socket", "sock"], "Socket"));
    push_value(&mut v, possible("e", &["empty"], "Empty file"));
    push_value(&mut v, possible("x", &["exec", "executable", "exe"], "Executable file"));
    assert(values_texts(v@) =~~= file_type_values());
    v
}

/// The command-line parser of file types.
#[derive(Clone, Debug)]
pub struct FileTypeParser;

impl FileTypeParser {
    /// Parses a file type by one of its names, in any case; a refused value
    /// is answered with a message that quotes it, examples and the valid
    /// names.
    pub fn parse_ref(&self, value: &str) -> (res: Result<FileTypeFilter, ParseFailure>)
        ensures
            match file_type_by_name(lowercase(value@)) {
                Some(f) => res == Ok::<FileTypeFilter, ParseFailure>(f),
                None => res matches Err(fail) && file_type_failure(fail, value@),
            },
    {
        parse_file_type(value)
    }

    /// The file types offered for completion, with their other names.
    pub fn possible_values(&self) -> (res: Vec<PossibleValue>)
        ensures
            values_texts(res@) == file_type_values(),
    {
        file_type_possible_values()
    }
}

/// The command-line parser of file type filters; it accepts the same names
/// as [`FileTypeParser`].
#[derive(Clone, Debug)]
pub struct FileTypeFilterParser;

impl FileTypeFilterParser {
    /// Parses a file type by one of its names, in any case; a refused value
    /// is answered with a message that quotes it, examples and the valid
    /// names.
    pub fn parse_ref(&self, value: &str) -> (res: Result<FileTypeFilter, ParseFailure>)
        ensures
            match file_type_by_name(lowercase(value@)) {
                Some(f) => res == Ok::<FileTypeFilter, ParseFailure>(f),
                None => res matches Err(fail) && file_type_failure(fail, value@),
            },
    {
        parse_file_type(value)
    }

    /// The file types offered for completion, with their other names.
    pub fn possible_values(&self) -> (res: Vec<PossibleValue>)
        ensures
            values_texts(res@) == file_type_values(),
    {
        file_type_possible_values()
    }
}

/// The one-letter names that the parsers accept are exactly the letters that
/// `FileTypeFilter::from_char` accepts, with the same meaning.
pub proof fn lemma_letter_names_agree(c: char)
    ensures
        file_type_by_name(seq![c]) == crate::file_type::char_to_filter(c),
{
    reveal_strlit("d");
    reveal_strlit("dir");
    reveal_strlit("hardlink");
    reveal_strlit("directory");
    reveal_strlit("u");
    reveal_strlit("unknown");
    reveal_strlit("l");
    reveal_strlit("symlink");
    reveal_strlit("link");
    reveal_strlit("f");
    reveal_strlit("file");
    reveal_strlit("regular");
    reveal_strlit("p");
    reveal_strlit("pipe");
    reveal_strlit("fifo");
    reveal_strlit("c");
    reveal_strlit("char");
    reveal_strlit("chardev");
    reveal_strlit("chardevice");
    reveal_strlit("b");
    reveal_strlit("block");
    reveal_strlit("blockdev");
    reveal_strlit("blockdevice");
    reveal_strlit("block-device");
    reveal_strlit("s");
    reveal_strlit("socket");
    reveal_strlit("sock");
    reveal_strlit("e");
    reveal_strlit("empty");
    reveal_strlit("x");
    reveal_strlit("exec");
    reveal_strlit("exe");
    reveal_strlit("executable");
    let n = seq![c];
    assert(n[0] == c && n.len() == 1);
    assert(n == "d"@ <==> c == 'd') by {
        if n == "d"@ {
            assert("d"@[0] == 'd');
        }
        if c == 'd' {
            assert(n =~= "d"@);
        }
    }
    assert(n == "u"@ <==> c == 'u') by {
        if n == "u"@ {
            assert("u"@[0] == 'u');
        }
        if c == 'u' {
            assert(n =~= "u"@);
        }
    }
    assert(n == "l"@ <==> c == 'l') by {
        if n == "l"@ {
            assert("l"@[0] == 'l');
        }
        if c == 'l' {
            assert(n =~= "l"@);
        }
    }
    assert(n == "f"@ <==> c == 'f') by {
        if n == "f"@ {
            assert("f"@[0] == 'f');
        }
        if c == 'f' {
            assert(n =~= "f"@);
        }
    }
    assert(n == "p"@ <==> c == 'p') by {
        if n == "p"@ {
            assert("p"@[0] == 'p');
        }
        if c == 'p' {
            assert(n =~= "p"@);
        }
    }
    assert(n == "c"@ <==> c == 'c') by {
        if n == "c"@ {
            assert("c"@[0] == 'c');
        }
        if c == 'c' {
            assert(n =~= "c"@);
        }
    }
    assert(n == "b"@ <==> c == 'b') by {
        if n == "b"@ {
            assert("b"@[0] == 'b');
        }
        if c == 'b' {
            assert(n =~= "b"@);
        }
    }
    assert(n == "s"@ <==> c == 's') by {
        if n == "s"@ {
            assert("s"@[0] == 's');
        }
        if c == 's' {
            assert(n =~= "s"@);
        }
    }
    assert(n == "e"@ <==> c == 'e') by {
        if n == "e"@ {
            assert("e"@[0] == 'e');
        }
        if c == 'e' {
            assert(n =~= "e"@);
        }
    }
    assert(n == "x"@ <==> c == 'x') by {
        if n == "x"@ {
            assert("x"@[0] == 'x');
        }
        if c == 'x' {
            assert(n =~= "x"@);
        }
    }
}

} // verus!
