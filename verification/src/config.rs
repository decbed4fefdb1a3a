//! The configuration of a search: which names or paths match, which are
//! ignored, and the filters on type, size and modification time.
use vstd::prelude::*;
use regex::bytes::{Regex, RegexBuilder};
use regex::Error as RegexError;
use thread_local::ThreadLocal;
use crate::file_type::{FileType, FileTypeFilter};
use crate::glob::{glob_to_regex_pattern, regex_of_glob, Error, GlobError};
use crate::path::{equal_ignoring_ascii_case, extension_of, matches_extension};
use crate::size_filter::SizeFilter;
use crate::text::{
    append_chars, concat_text, is_text, lowercase, str_chars, string_from_chars, to_lowercase,
};
use crate::time_filter::{time_matches, TimeFilter, Timestamp};

verus! {

/// `regex::bytes::Regex`, a compiled expression for byte haystacks, held
/// opaque: nothing inside it is read here.
#[verifier::external_type_specification]
#[verifier::external_body]
pub struct ExBytesRegex(Regex);

/// `regex::Error`, why an expression did not compile, held opaque.
#[verifier::external_type_specification]
#[verifier::external_body]
pub struct ExRegexError(RegexError);

/// `thread_local::ThreadLocal`, a value per thread, held opaque.
#[verifier::external_type_specification]
#[verifier::external_body]
#[verifier::reject_recursive_types(T)]
pub struct ExThreadLocal<T: Send>(ThreadLocal<T>);

/// Whether `regex::bytes::RegexBuilder` compiles the pattern, with the given
/// case setting and `.` not matching a line feed.
pub uninterp spec fn regex_builds(pattern: Seq<char>, case_insensitive: bool) -> bool;

/// Whether a regex compiled as for `regex_builds` (pattern and case setting)
/// matches somewhere in the haystack.
pub uninterp spec fn regex_matches(regex: (Seq<char>, bool), haystack: Seq<u8>) -> bool;

/// Compiles a pattern for byte haystacks with `regex::bytes::RegexBuilder`,
/// with the given case setting and `.` not matching a line feed. The contract
/// names whether it compiles as a function of the pattern and the setting.
#[verifier::external_body]
fn build_regex(pattern: &str, case_insensitive: bool) -> (res: Result<Regex, RegexError>)
    ensures
        res is Ok == regex_builds(pattern@, case_insensitive),
{
    RegexBuilder::new(pattern).case_insensitive(case_insensitive).dot_matches_new_line(false).build()
}

/// `ThreadLocal::new`: an empty per-thread cache of regex copies. Nothing is
/// stated of it.
#[verifier::external_body]
fn new_regex_cache() -> ThreadLocal<Regex> {
    ThreadLocal::new()
}

/// A compiled regex with a copy per thread that uses it.
pub struct TLSRegex {
    base: Regex,
    local: ThreadLocal<Regex>,
    pattern: Ghost<Seq<char>>,
    case_insensitive: Ghost<bool>,
}

impl View for TLSRegex {
    type V = (Seq<char>, bool);

    /// The pattern the regex was compiled from and its case setting.
    closed spec fn view(&self) -> (Seq<char>, bool) {
        (self.pattern@, self.case_insensitive@)
    }
}

/// `regex::bytes::Regex::is_match` on this thread's copy of the regex (made
/// by `ThreadLocal::get_or` with `Regex::clone` the first time a thread asks):
/// the contract names the answer as a function of the pattern and case
/// setting the regex was compiled from, and the haystack.
#[verifier::external_body]
fn regex_is_match(re: &TLSRegex, haystack: &[u8]) -> (res: bool)
    ensures
        res == regex_matches(re@, haystack@),
{
    re.local.get_or(|| re.base.clone()).is_match(haystack)
}

impl TLSRegex {
    /// Whether the regex matches somewhere in `path`.
    pub fn is_match(&self, path: &[u8]) -> (res: bool)
        ensures
            res == regex_matches(self@, path@),
    {
        regex_is_match(self, path)
    }
}

/// Compiles a pattern into a regex with a copy per thread.
fn compile(pattern: &str, case_insensitive: bool) -> (res: Result<TLSRegex, RegexError>)
    ensures
        res is Ok == regex_builds(pattern@, case_insensitive),
        res matches Ok(re) ==> re@ == (pattern@, case_insensitive),
{
    match build_regex(pattern, case_insensitive) {
        Ok(base) => Ok(
            TLSRegex {
                base,
                local: new_regex_cache(),
                pattern: Ghost(pattern@),
                case_insensitive: Ghost(case_insensitive),
            },
        ),
        Err(e) => Err(e),
    }
}

/// Why a search configuration could not be made.
#[derive(Debug)]
pub enum SearchConfigError {
    /// A glob pattern could not be converted to a regex.
    GlobToRegexError(Error),
    /// A regular expression did not compile.
    RegexError(RegexError),
    /// The root of the search is not a directory.
    NotADirectory,
}

/// The text of a regex compilation error (its `Display` form). Nothing is
/// stated of it: the error is opaque here.
#[verifier::external_body]
fn regex_error_text(error: &RegexError) -> String {
    error.to_string()
}

impl SearchConfigError {
    /// The human-readable message of the error: for a glob, the glob error's
    /// message after a prefix; for a regex, the regex engine's text after a
    /// prefix.
    pub fn to_string(&self) -> (res: String)
        ensures
            self matches SearchConfigError::GlobToRegexError(e) ==> res@ == "Glob to regex conversion error: "@
                + crate::glob::glob_error_message(e@),
            self matches SearchConfigError::RegexError(_) ==> exists|t: Seq<char>|
                res@ == "Regex error: "@ + t,
            self matches SearchConfigError::NotADirectory ==> res@ == "Path is not a directory"@,
    {
        match self {
            SearchConfigError::GlobToRegexError(e) => concat_text("Glob to regex conversion error: ", e.to_string().as_str()),
            SearchConfigError::RegexError(e) => {
                let text = regex_error_text(e);
                let r = concat_text("Regex error: ", text.as_str());
                assert(r@ == "Regex error: "@ + text@);
                r
            },
            SearchConfigError::NotADirectory => String::from_str("Path is not a directory"),
        }
    }
}

/// What [`SearchConfig::new`] makes of its patterns: the expressions for
/// names and for ignored paths and whether names alone are matched, or the
/// failure.
pub enum ConfigOutcome {
    Built { regex: Option<Seq<char>>, ignore: Option<Seq<char>>, file_name_only: bool },
    GlobFailed(GlobError),
    RegexFailed,
}

/// The expression that a search pattern stands for: the pattern itself, its
/// glob conversion, or `.*` when there is none.
pub open spec fn pattern_plan(pattern: Option<Seq<char>>, use_glob: bool) -> Result<Seq<char>, GlobError> {
    match pattern {
        None => Ok(".*"@),
        Some(p) => if use_glob {
            regex_of_glob(p)
        } else {
            Ok(p)
        },
    }
}

/// An expression that matches every name, so that no regex is needed.
pub open spec fn matches_everything(p: Seq<char>) -> bool {
    p == "."@ || p == ".*"@ || p.len() == 0
}

/// The expressions of the ignore patterns: the plain ones, then the glob
/// ones converted; the first glob that fails to convert, in order, fails
/// them all.
pub open spec fn ignore_plan(plain: Seq<Seq<char>>, globs: Seq<Seq<char>>) -> Result<Seq<Seq<char>>, GlobError>
    decreases globs.len(),
{
    if globs.len() == 0 {
        Ok(plain)
    } else {
        match ignore_plan(plain, globs.drop_last()) {
            Err(e) => Err(e),
            Ok(v) => match regex_of_glob(globs.last()) {
                Ok(t) => Ok(v.push(t)),
                Err(e) => Err(e),
            },
        }
    }
}

/// One expression as a non-capturing group.
pub open spec fn as_group(p: Seq<char>) -> Seq<char> {
    "(?:"@ + p + ")"@
}

/// The expressions as groups, separated by `|`.
pub open spec fn alternatives(ps: Seq<Seq<char>>) -> Seq<char>
    decreases ps.len(),
{
    if ps.len() == 0 {
        Seq::empty()
    } else if ps.len() == 1 {
        as_group(ps[0])
    } else {
        alternatives(ps.drop_last()) + "|"@ + as_group(ps.last())
    }
}

/// The pattern holds a `/`, so that it is matched against whole paths.
pub open spec fn has_slash(p: Seq<char>) -> bool {
    exists|i: int| 0 <= i < p.len() && p[i] == '/'
}

/// What [`SearchConfig::new`] makes of its patterns.
pub open spec fn config_outcome(
    pattern: Option<Seq<char>>,
    case_insensitive: bool,
    filenameonly: bool,
    use_glob: bool,
    plain: Seq<Seq<char>>,
    globs: Seq<Seq<char>>,
) -> ConfigOutcome {
    match pattern_plan(pattern, use_glob) {
        Err(e) => ConfigOutcome::GlobFailed(e),
        Ok(p) => if !matches_everything(p) && !regex_builds(p, case_insensitive) {
            ConfigOutcome::RegexFailed
        } else {
            match ignore_plan(plain, globs) {
                Err(e) => ConfigOutcome::GlobFailed(e),
                Ok(v) => if v.len() > 0 && !regex_builds(alternatives(v), case_insensitive) {
                    ConfigOutcome::RegexFailed
                } else {
                    ConfigOutcome::Built {
                        regex: if matches_everything(p) {
                            None
                        } else {
                            Some(p)
                        },
                        ignore: if v.len() == 0 {
                            None
                        } else {
                            Some(alternatives(v))
                        },
                        file_name_only: match pattern {
                            Some(q) => !has_slash(q) && filenameonly,
                            None => filenameonly,
                        },
                    }
                },
            }
        },
    }
}

/// Whether a size passes a size filter.
pub open spec fn size_within(f: SizeFilter, size: u64) -> bool {
    match f {
        SizeFilter::Max(limit) => size <= limit,
        SizeFilter::Min(limit) => size >= limit,
        SizeFilter::Equals(limit) => size == limit,
    }
}

/// Whether an entry of a type, executable or not and empty or not, is one
/// that a type filter selects.
pub open spec fn type_selected(f: FileTypeFilter, t: FileType, is_executable: bool, is_empty: bool) -> bool {
    match f {
        FileTypeFilter::File => t == FileType::RegularFile,
        FileTypeFilter::Directory => t == FileType::Directory,
        FileTypeFilter::Symlink => t == FileType::Symlink,
        FileTypeFilter::Pipe => t == FileType::Pipe,
        FileTypeFilter::CharDevice => t == FileType::CharDevice,
        FileTypeFilter::BlockDevice => t == FileType::BlockDevice,
        FileTypeFilter::Socket => t == FileType::Socket,
        FileTypeFilter::Unknown => t == FileType::Unknown,
        FileTypeFilter::Executable => is_executable,
        FileTypeFilter::Empty => is_empty,
    }
}

/// The texts of a list of strings.
pub open spec fn string_texts(v: Seq<String>) -> Seq<Seq<char>> {
    v.map_values(|s: String| s@)
}

/// The pattern of an optional compiled regex.
pub open spec fn regex_pattern(r: Option<TLSRegex>) -> Option<Seq<char>> {
    match r {
        Some(re) => Some(re@.0),
        None => None,
    }
}

/// The configuration of a search.
pub struct SearchConfig {
    /// What names (or paths) must match; `None` matches everything.
    pub regex_match: Option<TLSRegex>,
    /// Whether hidden files are left out.
    pub hide_hidden: bool,
    /// The extension that names must have, compared without ASCII case.
    pub extension_match: Option<Vec<u8>>,
    /// Whether the regex is matched against the file name alone.
    pub file_name_only: bool,
    /// How deep the search goes, if limited.
    pub depth: Option<u32>,
    /// Whether symbolic links are followed.
    pub follow_symlinks: bool,
    /// The filter on file sizes.
    pub size_filter: Option<SizeFilter>,
    /// The filter on file types.
    pub type_filter: Option<FileTypeFilter>,
    /// The filter on modification times.
    pub time_filter: Option<TimeFilter>,
    /// Whether `.gitignore` rules are respected.
    pub respect_gitignore: bool,
    /// What paths are ignored; `None` ignores nothing.
    pub ignore_match: Option<TLSRegex>,
}

/// Whether a character sequence holds a `/`.
fn contains_slash(p: &Vec<char>) -> (res: bool)
    ensures
        res == has_slash(p@),
{
    let mut i: usize = 0;
    while i < p.len()
        invariant
            i <= p.len(),
            forall|j: int| 0 <= j < i ==> p@[j] != '/',
        decreases p.len() - i,
    {
        if p[i] == '/' {
            return true;
        }
        i = i + 1;
    }
    false
}

/// The expressions as groups, separated by `|`.
fn join_alternatives(ps: &Vec<String>) -> (res: String)
    ensures
        res@ == alternatives(string_texts(ps@)),
{
    let open = str_chars("(?:");
    let close = str_chars(")");
    let bar = str_chars("|");
    let ghost all = string_texts(ps@);
    let mut out: Vec<char> = Vec::new();
    let mut i: usize = 0;
    assert(all.take(0) =~= Seq::<Seq<char>>::empty());
    while i < ps.len()
        invariant
            i <= ps.len(),
            all == string_texts(ps@),
            open@ == "(?:"@,
            close@ == ")"@,
            bar@ == "|"@,
            out@ == alternatives(all.take(i as int)),
        decreases ps.len() - i,
    {
        let ghost before = out@;
        let ghost prev = all.take(i as int);
        assert(all.take(i + 1).drop_last() =~= prev);
        assert(all.take(i + 1).last() == ps@[i as int]@);
        if i > 0 {
            append_chars(&mut out, &bar);
        }
        append_chars(&mut out, &open);
        append_chars(&mut out, &str_chars(ps[i].as_str()));
        append_chars(&mut out, &close);
        proof {
            if i == 0 {
                assert(out@ =~= as_group(all.take(1)[0]));
            } else {
                assert(out@ =~= before + "|"@ + as_group(all.take(i + 1).last()));
            }
        }
        i = i + 1;
    }
    assert(all.take(ps.len() as int) =~= all);
    string_from_chars(&out)
}

/// The ignore patterns as expressions: the plain ones, then the glob ones
/// converted.
fn ignore_patterns_merged(plain: Vec<String>, globs: &Vec<String>) -> (res: Result<Vec<String>, Error>)
    ensures
        match ignore_plan(string_texts(plain@), string_texts(globs@)) {
            Ok(v) => res matches Ok(m) && string_texts(m@) == v,
            Err(e) => res matches Err(err) && err@ == e,
        },
{
    let ghost g = string_texts(globs@);
    let mut merged = plain;
    let mut i: usize = 0;
    assert(g.take(0) =~= Seq::<Seq<char>>::empty());
    while i < globs.len()
        invariant
            i <= globs.len(),
            g == string_texts(globs@),
            ignore_plan(string_texts(plain@), g.take(i as int)) == Ok::<Seq<Seq<char>>, GlobError>(
                string_texts(merged@),
            ),
        decreases globs.len() - i,
    {
        assert(g.take(i + 1).drop_last() =~= g.take(i as int));
        assert(g.take(i + 1).last() == globs@[i as int]@);
        match glob_to_regex_pattern(globs[i].as_str()) {
            Ok(t) => {
                let ghost before = merged@;
                merged.push(t);
                assert(string_texts(merged@) =~= string_texts(before).push(t@));
            },
            Err(e) => {
                proof {
                    lemma_ignore_plan_fails(string_texts(plain@), g, i as int + 1);
                }
                return Err(e);
            },
        }
        i = i + 1;
    }
    assert(g.take(globs.len() as int) =~= g);
    Ok(merged)
}

/// Once a prefix of the glob patterns fails, all of them fail the same way.
proof fn lemma_ignore_plan_fails(plain: Seq<Seq<char>>, globs: Seq<Seq<char>>, k: int)
    requires
        0 <= k <= globs.len(),
        ignore_plan(plain, globs.take(k)) is Err,
    ensures
        ignore_plan(plain, globs) == ignore_plan(plain, globs.take(k)),
    decreases globs.len() - k,
{
    if k < globs.len() {
        assert(globs.take(k + 1).drop_last() =~= globs.take(k));
        lemma_ignore_plan_fails(plain, globs, k + 1);
    } else {
        assert(globs.take(k) =~= globs);
    }
}

impl SearchConfig {
    /// Makes the configuration of a search. The search pattern (or `.*`
    /// without one), converted first when it is a glob, becomes the name
    /// regex unless it matches everything (`.`, `.*` or empty); a pattern
    /// with a `/` is matched against whole paths. The ignore patterns, the
    /// glob ones converted, become one regex of alternatives. Errors: a glob
    /// that does not convert, or an expression that does not compile.
    pub fn new(
        pattern: Option<&str>,
        hide_hidden: bool,
        case_insensitive: bool,
        filenameonly: bool,
        extension_match: Option<Vec<u8>>,
        depth: Option<u32>,
        follow_symlinks: bool,
        size_filter: Option<SizeFilter>,
        type_filter: Option<FileTypeFilter>,
        time_filter: Option<TimeFilter>,
        use_glob: bool,
        respect_gitignore: bool,
        ignore_patterns: Vec<String>,
        ignore_glob_patterns: Vec<String>,
    ) -> (res: Result<SearchConfig, SearchConfigError>)
        ensures
            match config_outcome(
                match pattern {
                    Some(p) => Some(p@),
                    None => None,
                },
                case_insensitive,
                filenameonly,
                use_glob,
                string_texts(ignore_patterns@),
                string_texts(ignore_glob_patterns@),
            ) {
                ConfigOutcome::Built { regex, ignore, file_name_only } => res matches Ok(c) && {
                    &&& regex_pattern(c.regex_match) == regex
                    &&& (c.regex_match matches Some(re) ==> re@.1 == case_insensitive)
                    &&& regex_pattern(c.ignore_match) == ignore
                    &&& (c.ignore_match matches Some(re) ==> re@.1 == case_insensitive)
                    &&& c.file_name_only == file_name_only
                    &&& c.hide_hidden == hide_hidden
                    &&& c.extension_match == extension_match
                    &&& c.depth == depth
                    &&& c.follow_symlinks == follow_symlinks
                    &&& c.size_filter == size_filter
                    &&& c.type_filter == type_filter
                    &&& c.time_filter == time_filter
                    &&& c.respect_gitignore == respect_gitignore
                },
                ConfigOutcome::GlobFailed(e) => res matches Err(SearchConfigError::GlobToRegexError(
                    err,
                )) && err@ == e,
                ConfigOutcome::RegexFailed => res matches Err(SearchConfigError::RegexError(_)),
            },
    {
        let (file_name_only, pattern_to_use) = match pattern {
            Some(patt) => {
                let chars = str_chars(patt);
                let file_name_only = if contains_slash(&chars) {
                    false
                } else {
                    filenameonly
                };
                let pattern_to_use = if use_glob {
                    match glob_to_regex_pattern(patt) {
                        Ok(t) => t,
                        Err(e) => return Err(SearchConfigError::GlobToRegexError(e)),
                    }
                } else {
                    patt.to_owned()
                };
                (file_name_only, pattern_to_use)
            },
            None => (filenameonly, ".*".to_owned()),
        };
        let used = str_chars(pattern_to_use.as_str());
        let regex_match = if is_text(&used, ".") || is_text(&used, ".*") || used.len() == 0 {
            None
        } else {
            match compile(pattern_to_use.as_str(), case_insensitive) {
                Ok(re) => Some(re),
                Err(e) => return Err(SearchConfigError::RegexError(e)),
            }
        };
        let merged = match ignore_patterns_merged(ignore_patterns, &ignore_glob_patterns) {
            Ok(m) => m,
            Err(e) => return Err(SearchConfigError::GlobToRegexError(e)),
        };
        let ignore_match = if merged.len() == 0 {
            None
        } else {
            let combined = join_alternatives(&merged);
            match compile(combined.as_str(), case_insensitive) {
                Ok(re) => Some(re),
                Err(e) => return Err(SearchConfigError::RegexError(e)),
            }
        };
        Ok(
            SearchConfig {
                regex_match,
                hide_hidden,
                extension_match,
                file_name_only,
                depth,
                follow_symlinks,
                size_filter,
                type_filter,
                time_filter,
                respect_gitignore,
                ignore_match,
            },
        )
    }

    /// Whether a path is ignored: it matches the ignore regex, if there is one.
    pub fn matches_ignore_path(&self, path: &[u8]) -> (res: bool)
        ensures
            res == match self.ignore_match {
                Some(re) => regex_matches(re@, path@),
                None => false,
            },
    {
        match &self.ignore_match {
            Some(re) => re.is_match(path),
            None => false,
        }
    }

    /// Whether a file name has the wanted extension, without regard to ASCII
    /// case; any name passes when no extension is wanted.
    pub fn matches_extension(&self, file_name: &[u8]) -> (res: bool)
        ensures
            res == match self.extension_match {
                None => true,
                Some(ext) => match extension_of(file_name@) {
                    Some(e) => equal_ignoring_ascii_case(e, ext@),
                    None => false,
                },
            },
    {
        match &self.extension_match {
            None => true,
            Some(ext) => matches_extension(file_name, ext.as_slice()),
        }
    }

    /// Whether an entry passes the size filter. A regular file passes on its
    /// own size; a symbolic link passes when its target is a regular file
    /// whose size passes; nothing else does. `stat` is what a lookup of the
    /// entry (for a link, of its target) found: its type and size, or `None`
    /// when the lookup failed. Everything passes without a filter.
    pub fn matches_size(&self, file_type: FileType, stat: Option<(FileType, u64)>) -> (res: bool)
        ensures
            res == match self.size_filter {
                None => true,
                Some(f) => match stat {
                    None => false,
                    Some((t, size)) => (file_type == FileType::RegularFile || (file_type
                        == FileType::Symlink && t == FileType::RegularFile)) && size_within(f, size),
                },
            },
    {
        let filter = match self.size_filter {
            None => return true,
            Some(f) => f,
        };
        match file_type {
            FileType::RegularFile => match stat {
                Some((_, size)) => filter.is_within_size(size),
                None => false,
            },
            FileType::Symlink => match stat {
                Some((t, size)) => t.is_regular_file() && filter.is_within_size(size),
                None => false,
            },
            _ => false,
        }
    }

    /// Whether an entry passes the type filter; executability and emptiness
    /// are the caller's findings. Everything passes without a filter.
    pub fn matches_type(&self, file_type: FileType, is_executable: bool, is_empty: bool) -> (res: bool)
        ensures
            res == match self.type_filter {
                None => true,
                Some(f) => type_selected(f, file_type, is_executable, is_empty),
            },
    {
        match self.type_filter {
            None => true,
            Some(f) => match f {
                FileTypeFilter::File => file_type.is_regular_file(),
                FileTypeFilter::Directory => file_type.is_dir(),
                FileTypeFilter::Symlink => file_type.is_symlink(),
                FileTypeFilter::Pipe => file_type.is_pipe(),
                FileTypeFilter::CharDevice => file_type.is_char_device(),
                FileTypeFilter::BlockDevice => file_type.is_block_device(),
                FileTypeFilter::Socket => file_type.is_socket(),
                FileTypeFilter::Unknown => file_type.is_unknown(),
                FileTypeFilter::Executable => is_executable,
                FileTypeFilter::Empty => is_empty,
            },
        }
    }

    /// Whether an entry passes the time filter, by its modification time
    /// (`None` when it could not be read). Everything passes without a
    /// filter.
    pub fn matches_time(&self, modified: Option<Timestamp>) -> (res: bool)
        ensures
            res == match self.time_filter {
                None => true,
                Some(f) => match modified {
                    Some(t) => time_matches(f, t),
                    None => false,
                },
            },
    {
        match self.time_filter {
            None => true,
            Some(f) => match modified {
                Some(t) => f.matches_timestamp(t),
                None => false,
            },
        }
    }

    /// Whether an entry's path matches the name regex: the whole path, or
    /// only the file name, which starts at `file_name_index`. Everything
    /// matches without a regex.
    pub fn matches_path(&self, path: &[u8], file_name_index: usize, full_path: bool) -> (res: bool)
        requires
            file_name_index <= path.len(),
        ensures
            res == match self.regex_match {
                None => true,
                Some(re) => regex_matches(
                    re@,
                    if full_path {
                        path@
                    } else {
                        path@.skip(file_name_index as int)
                    },
                ),
            },
    {
        match &self.regex_match {
            None => true,
            Some(re) => {
                let start = if full_path {
                    0
                } else {
                    file_name_index
                };
                let part = &path[start..path.len()];
                assert(full_path ==> part@ =~= path@);
                re.is_match(part)
            },
        }
    }
}

/// Whether a type letter selects an entry: `d` directories, `l` links, `f`
/// regular files, `p` pipes, `c` and `b` character and block devices, `s`
/// sockets, `e` empty entries, `x` executables, `u` entries of unknown type.
pub open spec fn type_letter_selects(c: char, t: FileType, is_empty: bool, is_executable: bool) -> bool {
    ||| c == 'd' && t == FileType::Directory
    ||| c == 'l' && t == FileType::Symlink
    ||| c == 'f' && t == FileType::RegularFile
    ||| c == 'p' && t == FileType::Pipe
    ||| c == 'c' && t == FileType::CharDevice
    ||| c == 'b' && t == FileType::BlockDevice
    ||| c == 's' && t == FileType::Socket
    ||| c == 'e' && is_empty
    ||| c == 'x' && is_executable
    ||| c == 'u' && t == FileType::Unknown
}

/// The letters of a list of type names, each lower-cased, in order.
pub open spec fn type_letters(types: Seq<Seq<char>>) -> Seq<char>
    decreases types.len(),
{
    if types.len() == 0 {
        Seq::empty()
    } else {
        type_letters(types.drop_last()) + lowercase(types.last())
    }
}

/// The set of type letters that a search selects entries by.
pub struct TypeFilterSet {
    letters: Vec<char>,
}

impl View for TypeFilterSet {
    type V = Seq<char>;

    /// The type letters, in order.
    closed spec fn view(&self) -> Seq<char> {
        self.letters@
    }
}

/// The type letters of the given type names: each name lower-cased, all of
/// their characters in order.
pub fn build_type_filter(types: &Vec<String>) -> (res: TypeFilterSet)
    ensures
        res@ == type_letters(string_texts(types@)),
{
    let ghost all = string_texts(types@);
    let mut letters: Vec<char> = Vec::new();
    let mut i: usize = 0;
    assert(all.take(0) =~= Seq::<Seq<char>>::empty());
    while i < types.len()
        invariant
            i <= types.len(),
            all == string_texts(types@),
            letters@ == type_letters(all.take(i as int)),
        decreases types.len() - i,
    {
        assert(all.take(i + 1).drop_last() =~= all.take(i as int));
        assert(all.take(i + 1).last() == types@[i as int]@);
        let lowered = to_lowercase(types[i].as_str());
        append_chars(&mut letters, &str_chars(lowered.as_str()));
        i = i + 1;
    }
    assert(all.take(types.len() as int) =~= all);
    TypeFilterSet { letters }
}

/// Whether one type letter selects an entry.
fn letter_selects(c: char, t: FileType, is_empty: bool, is_executable: bool) -> (res: bool)
    ensures
        res == type_letter_selects(c, t, is_empty, is_executable),
{
    match c {
        'd' => t.is_dir(),
        'l' => t.is_symlink(),
        'f' => t.is_regular_file(),
        'p' => t.is_pipe(),
        'c' => t.is_char_device(),
        'b' => t.is_block_device(),
        's' => t.is_socket(),
        'e' => is_empty,
        'x' => is_executable,
        'u' => t.is_unknown(),
        _ => false,
    }
}

impl TypeFilterSet {
    /// Whether some type letter selects an entry of type `t`, empty or not
    /// and executable or not (the caller's findings).
    pub fn filter_by_type(&self, t: FileType, is_empty: bool, is_executable: bool) -> (res: bool)
        ensures
            res == exists|i: int|
                0 <= i < self@.len() && type_letter_selects(
                    #[trigger] self@[i],
                    t,
                    is_empty,
                    is_executable,
                ),
            res == letters_select(self@, t, is_empty, is_executable),
    {
        let mut i: usize = 0;
        while i < self.letters.len()
            invariant
                i <= self.letters.len(),
                forall|j: int|
                    0 <= j < i ==> !type_letter_selects(
                        #[trigger] self.letters@[j],
                        t,
                        is_empty,
                        is_executable,
                    ),
            decreases self.letters.len() - i,
        {
            if letter_selects(self.letters[i], t, is_empty, is_executable) {
                assert(self@[i as int] == self.letters@[i as int]);
                return true;
            }
            i = i + 1;
        }
        assert(self@ == self.letters@);
        false
    }
}


/// Each type filter lets through exactly the entries of its own type: a
/// directory filter passes directories and nothing else (not even links to
/// them), a link filter passes links, and so on; the executable and empty
/// filters go by those findings alone, whatever the entry's type.
pub proof fn lemma_type_filter_passes_its_type(t: FileType, is_executable: bool, is_empty: bool)
    ensures
        type_selected(FileTypeFilter::Directory, t, is_executable, is_empty) <==> t
            == FileType::Directory,
        type_selected(FileTypeFilter::File, t, is_executable, is_empty) <==> t
            == FileType::RegularFile,
        type_selected(FileTypeFilter::Symlink, t, is_executable, is_empty) <==> t
            == FileType::Symlink,
        type_selected(FileTypeFilter::Pipe, t, is_executable, is_empty) <==> t == FileType::Pipe,
        type_selected(FileTypeFilter::CharDevice, t, is_executable, is_empty) <==> t
            == FileType::CharDevice,
        type_selected(FileTypeFilter::BlockDevice, t, is_executable, is_empty) <==> t
            == FileType::BlockDevice,
        type_selected(FileTypeFilter::Socket, t, is_executable, is_empty) <==> t
            == FileType::Socket,
        type_selected(FileTypeFilter::Unknown, t, is_executable, is_empty) <==> t
            == FileType::Unknown,
        type_selected(FileTypeFilter::Executable, t, is_executable, is_empty) <==> is_executable,
        type_selected(FileTypeFilter::Empty, t, is_executable, is_empty) <==> is_empty,
{
}

/// Whether a set of type letters selects an entry: some letter selects it.
pub open spec fn letters_select(letters: Seq<char>, t: FileType, is_empty: bool, is_executable: bool) -> bool {
    exists|i: int| 0 <= i < letters.len() && type_letter_selects(#[trigger] letters[i], t, is_empty, is_executable)
}

/// The letter `e` selects exactly the empty entries, of whatever type (an
/// empty directory as much as an empty file), and `x` exactly the
/// executable ones; each other letter selects exactly its own type:
/// `d` directories, `l` links, `f` regular files, `p` pipes, `c` character
/// devices, `b` block devices, `s` sockets, `u` entries of unknown type. So a
/// set of letters selects an entry when one of its letters does, and a set
/// holding `e` selects every empty entry.
pub proof fn lemma_type_letters_select(letters: Seq<char>, t: FileType, is_empty: bool, is_executable: bool)
    ensures
        letters_select(seq!['e'], t, is_empty, is_executable) <==> is_empty,
        letters_select(seq!['x'], t, is_empty, is_executable) <==> is_executable,
        letters_select(seq!['d'], t, is_empty, is_executable) <==> t == FileType::Directory,
        letters_select(seq!['l'], t, is_empty, is_executable) <==> t == FileType::Symlink,
        letters_select(seq!['f'], t, is_empty, is_executable) <==> t == FileType::RegularFile,
        letters_select(seq!['p'], t, is_empty, is_executable) <==> t == FileType::Pipe,
        letters_select(seq!['c'], t, is_empty, is_executable) <==> t == FileType::CharDevice,
        letters_select(seq!['b'], t, is_empty, is_executable) <==> t == FileType::BlockDevice,
        letters_select(seq!['s'], t, is_empty, is_executable) <==> t == FileType::Socket,
        letters_select(seq!['u'], t, is_empty, is_executable) <==> t == FileType::Unknown,
        letters.contains('e') && is_empty ==> letters_select(letters, t, is_empty, is_executable),
{
    assert(type_letter_selects(seq!['e'][0], t, is_empty, is_executable) == is_empty);
    assert(type_letter_selects(seq!['x'][0], t, is_empty, is_executable) == is_executable);
    assert(type_letter_selects(seq!['d'][0], t, is_empty, is_executable) == (t == FileType::Directory));
    assert(type_letter_selects(seq!['l'][0], t, is_empty, is_executable) == (t == FileType::Symlink));
    assert(type_letter_selects(seq!['f'][0], t, is_empty, is_executable) == (t == FileType::RegularFile));
    assert(type_letter_selects(seq!['p'][0], t, is_empty, is_executable) == (t == FileType::Pipe));
    assert(type_letter_selects(seq!['c'][0], t, is_empty, is_executable) == (t == FileType::CharDevice));
    assert(type_letter_selects(seq!['b'][0], t, is_empty, is_executable) == (t == FileType::BlockDevice));
    assert(type_letter_selects(seq!['s'][0], t, is_empty, is_executable) == (t == FileType::Socket));
    assert(type_letter_selects(seq!['u'][0], t, is_empty, is_executable) == (t == FileType::Unknown));
    if letters.contains('e') && is_empty {
        let i = choose|i: int| 0 <= i < letters.len() && letters[i] == 'e';
        assert(type_letter_selects(letters[i], t, is_empty, is_executable));
    }
}

} // verus!
