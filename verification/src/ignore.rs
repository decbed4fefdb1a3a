//! Ignore rules from git's configuration: the `excludesFile` entries of the
//! `[core]` section of a config file, and the rule lines of an ignore file.
//! Files are read by the caller; these functions work on their bytes.
use vstd::prelude::*;
use crate::bytes::{append_bytes, bytes_equal, to_vec};
use crate::memchr::is_first_index;
use crate::path::{equal_ignoring_ascii_case, eq_ignore_ascii_case};

verus! {

/// The byte `\n`.
pub const NEWLINE: u8 = 10;
/// The byte `\r`.
pub const CARRIAGE_RETURN: u8 = 13;
/// The byte `#`, which starts a comment.
pub const HASH: u8 = 35;

/// ASCII whitespace as `u8::is_ascii_whitespace` has it: space, tab, line
/// feed, form feed and carriage return.
pub open spec fn is_ascii_space(b: u8) -> bool {
    b == 32 || b == 9 || b == 10 || b == 12 || b == 13
}

/// The bytes without their leading ASCII whitespace.
pub open spec fn trim_ascii_start(s: Seq<u8>) -> Seq<u8>
    decreases s.len(),
{
    if s.len() > 0 && is_ascii_space(s[0]) {
        trim_ascii_start(s.drop_first())
    } else {
        s
    }
}

/// The bytes without their trailing ASCII whitespace.
pub open spec fn trim_ascii_end(s: Seq<u8>) -> Seq<u8>
    decreases s.len(),
{
    if s.len() > 0 && is_ascii_space(s.last()) {
        trim_ascii_end(s.drop_last())
    } else {
        s
    }
}

/// The bytes without leading or trailing ASCII whitespace.
pub open spec fn trim_ascii(s: Seq<u8>) -> Seq<u8> {
    trim_ascii_end(trim_ascii_start(s))
}

/// The bytes without one final `\r`.
pub open spec fn without_trailing_cr(s: Seq<u8>) -> Seq<u8> {
    if s.len() > 0 && s.last() == CARRIAGE_RETURN {
        s.drop_last()
    } else {
        s
    }
}

/// The first position of `b` in `s`, if any.
pub open spec fn first_position(s: Seq<u8>, b: u8) -> Option<int> {
    if exists|i: int| is_first_index(s, b, i) {
        Some(choose|i: int| is_first_index(s, b, i))
    } else {
        None
    }
}

/// What comes before and after the first `b` in `s`.
pub open spec fn split_once(s: Seq<u8>, b: u8) -> Option<(Seq<u8>, Seq<u8>)> {
    match first_position(s, b) {
        Some(i) => Some((s.take(i), s.skip(i + 1))),
        None => None,
    }
}

/// Skipping whitespace from `i` keeps what `trim_ascii_start` keeps.
proof fn lemma_trim_start_from(s: Seq<u8>, i: int)
    requires
        0 <= i <= s.len(),
        forall|j: int| 0 <= j < i ==> #[trigger] is_ascii_space(s[j]),
    ensures
        trim_ascii_start(s) == trim_ascii_start(s.skip(i)),
    decreases i,
{
    if i > 0 {
        assert(s.drop_first().skip(i - 1) =~= s.skip(i));
        lemma_trim_start_from(s.drop_first(), i - 1);
    } else {
        assert(s.skip(0) =~= s);
    }
}

/// Dropping whitespace from the end up to `j` keeps what `trim_ascii_end`
/// keeps.
proof fn lemma_trim_end_to(s: Seq<u8>, j: int)
    requires
        0 <= j <= s.len(),
        forall|k: int| j <= k < s.len() ==> #[trigger] is_ascii_space(s[k]),
    ensures
        trim_ascii_end(s) == trim_ascii_end(s.take(j)),
    decreases s.len() - j,
{
    if j < s.len() {
        assert(s.drop_last().take(j) =~= s.take(j));
        lemma_trim_end_to(s.drop_last(), j);
    } else {
        assert(s.take(j) =~= s);
    }
}

/// Whether a byte is ASCII whitespace.
fn is_space(b: u8) -> (res: bool)
    ensures
        res == is_ascii_space(b),
{
    b == 32 || b == 9 || b == 10 || b == 12 || b == 13
}

/// The bytes without leading or trailing ASCII whitespace.
pub fn trim_ascii_whitespace(bytes: &[u8]) -> (res: &[u8])
    ensures
        res@ == trim_ascii(bytes@),
{
    let mut i: usize = 0;
    while i < bytes.len() && is_space(bytes[i])
        invariant
            i <= bytes.len(),
            forall|j: int| 0 <= j < i ==> #[trigger] is_ascii_space(bytes@[j]),
        decreases bytes.len() - i,
    {
        i = i + 1;
    }
    proof {
        lemma_trim_start_from(bytes@, i as int);
        if i < bytes.len() {
            assert(!is_ascii_space(bytes@.skip(i as int)[0]));
        }
    }
    let mut j: usize = bytes.len();
    while j > i && is_space(bytes[j - 1])
        invariant
            i <= j <= bytes.len(),
            forall|k: int| j <= k < bytes.len() ==> #[trigger] is_ascii_space(bytes@[k]),
        decreases j,
    {
        j = j - 1;
    }
    proof {
        let t = bytes@.skip(i as int);
        assert forall|k: int| j - i <= k < t.len() implies #[trigger] is_ascii_space(t[k]) by {
            assert(t[k] == bytes@[i + k]);
        }
        lemma_trim_end_to(t, j - i);
        let u = t.take(j - i);
        assert(u =~= bytes@.subrange(i as int, j as int));
        if u.len() > 0 {
            assert(u.last() == bytes@[j - 1]);
        }
        assert(trim_ascii_end(u) == u);
    }
    &bytes[i..j]
}

/// The bytes without one final `\r`.
pub fn strip_trailing_cr(bytes: &[u8]) -> (res: &[u8])
    ensures
        res@ == without_trailing_cr(bytes@),
{
    if bytes.len() > 0 && bytes[bytes.len() - 1] == CARRIAGE_RETURN {
        &bytes[0..bytes.len() - 1]
    } else {
        bytes
    }
}

/// The first position of `needle` in `bytes` from `from` on.
fn find_from(bytes: &[u8], from: usize, needle: u8) -> (res: Option<usize>)
    requires
        from <= bytes.len(),
    ensures
        match res {
            Some(i) => from <= i < bytes.len() && bytes@[i as int] == needle && forall|j: int|
                from <= j < i ==> #[trigger] bytes@[j] != needle,
            None => forall|j: int| from <= j < bytes.len() ==> #[trigger] bytes@[j] != needle,
        },
{
    let mut i = from;
    while i < bytes.len()
        invariant
            from <= i <= bytes.len(),
            forall|j: int| from <= j < i ==> #[trigger] bytes@[j] != needle,
        decreases bytes.len() - i,
    {
        if bytes[i] == needle {
            return Some(i);
        }
        i = i + 1;
    }
    None
}

/// Where `needle` first occurs in `s`, stated as `first_position`.
proof fn lemma_first_position(s: Seq<u8>, b: u8, res: Option<int>)
    requires
        match res {
            Some(i) => 0 <= i < s.len() && s[i] == b && forall|j: int| 0 <= j < i ==> #[trigger] s[j]
                != b,
            None => forall|j: int| 0 <= j < s.len() ==> #[trigger] s[j] != b,
        },
    ensures
        first_position(s, b) == res,
{
    match res {
        Some(i) => {
            assert(is_first_index(s, b, i));
            let k = choose|k: int| is_first_index(s, b, k);
            if k < i {
                assert(s[k] != b);
            } else if i < k {
                assert(s[i] != b);
            }
        },
        None => {
            if exists|i: int| is_first_index(s, b, i) {
                let k = choose|k: int| is_first_index(s, b, k);
                assert(s[k] == b);
            }
        },
    }
}

/// What comes before and after the first `needle` in `bytes`.
pub fn split_once_byte(bytes: &[u8], needle: u8) -> (res: Option<(&[u8], &[u8])>)
    ensures
        match split_once(bytes@, needle) {
            Some((l, r)) => res matches Some((a, b)) && a@ == l && b@ == r,
            None => res is None,
        },
{
    let found = find_from(bytes, 0, needle);
    proof {
        lemma_first_position(
            bytes@,
            needle,
            match found {
                Some(i) => Some(i as int),
                None => None,
            },
        );
    }
    match found {
        Some(i) => Some((&bytes[0..i], &bytes[i + 1..bytes.len()])),
        None => None,
    }
}

/// A line made ready for reading: without a final `\r`, then without
/// surrounding whitespace.
pub open spec fn clean_line(l: Seq<u8>) -> Seq<u8> {
    trim_ascii(without_trailing_cr(l))
}

/// What one line of an ignore file contributes: the cleaned line and a line
/// feed, or nothing for an empty line or a comment.
pub open spec fn kept_line(l: Seq<u8>) -> Seq<u8> {
    let t = clean_line(l);
    if t.len() == 0 || t[0] == HASH {
        Seq::empty()
    } else {
        t.push(NEWLINE)
    }
}

/// The first line of `raw` ends at a line feed.
pub proof fn lemma_first_position_bounds(raw: Seq<u8>, b: u8)
    ensures
        first_position(raw, b) matches Some(i) ==> 0 <= i < raw.len() && raw[i] == b,
{
}

/// The rules of an ignore file: each line that is neither empty nor a
/// comment, cleaned and ended with a line feed, in order.
pub open spec fn ignore_rules(raw: Seq<u8>) -> Seq<u8>
    decreases raw.len(),
{
    match first_position(raw, NEWLINE) {
        Some(i) => {
            proof {
                lemma_first_position_bounds(raw, NEWLINE);
            }
            kept_line(raw.take(i)) + ignore_rules(raw.skip(i + 1))
        },
        None => kept_line(raw),
    }
}

/// Appends what one line contributes; returns whether it contributed.
fn append_kept_line(line: &[u8], output: &mut Vec<u8>) -> (res: bool)
    ensures
        final(output)@ == old(output)@ + kept_line(line@),
        res == (kept_line(line@).len() > 0),
{
    let trimmed = trim_ascii_whitespace(strip_trailing_cr(line));
    if trimmed.len() == 0 || trimmed[0] == HASH {
        return false;
    }
    append_bytes(output, trimmed);
    output.push(NEWLINE);
    proof {
        assert(output@ =~= old(output)@ + kept_line(line@));
    }
    true
}

/// Appends the rules of an ignore file (its lines, cleaned, without empty
/// lines and comments, each ended with a line feed) to `output`; returns
/// whether there were any.
pub fn append_filtered_ignore_lines(raw: &[u8], output: &mut Vec<u8>) -> (res: bool)
    ensures
        final(output)@ == old(output)@ + ignore_rules(raw@),
        res == (ignore_rules(raw@).len() > 0),
{
    let ghost first = output@;
    let mut start: usize = 0;
    let mut appended = false;
    assert(raw@.skip(0) =~= raw@);
    loop
        invariant_except_break
            first + ignore_rules(raw@) == output@ + ignore_rules(raw@.skip(start as int)),
        invariant
            start <= raw.len(),
            appended == (output@.len() > first.len()),
            output@.len() >= first.len(),
        ensures
            output@ == first + ignore_rules(raw@),
            appended == (output@.len() > first.len()),
        decreases raw.len() - start,
    {
        let ghost rest = raw@.skip(start as int);
        let nl = find_from(raw, start, NEWLINE);
        let end = match nl {
            Some(i) => i,
            None => raw.len(),
        };
        proof {
            lemma_first_position(
                rest,
                NEWLINE,
                match nl {
                    Some(i) => Some(i - start),
                    None => None,
                },
            );
        }
        let line = &raw[start..end];
        assert(line@ =~= rest.take(end - start));
        if append_kept_line(line, output) {
            appended = true;
        }
        match nl {
            Some(i) => {
                assert(raw@.skip(i + 1) =~= rest.skip(i - start + 1));
                start = i + 1;
            },
            None => {
                assert(rest.take(end - start) =~= rest);
                assert(output@ =~= first + ignore_rules(raw@));
                break;
            },
        }
    }
    appended
}

// ------------------------------------------------------ git config files

/// The byte `[`.
pub const OPEN_BRACKET: u8 = 91;
/// The byte `]`.
pub const CLOSE_BRACKET: u8 = 93;
/// The byte `=`.
pub const EQUALS: u8 = 61;
/// The byte `~`.
pub const TILDE: u8 = 126;
/// The byte `/`.
pub const SLASH: u8 = 47;

/// The name of git's `core` section.
pub open spec fn core_section() -> Seq<u8> {
    seq![99u8, 111u8, 114u8, 101u8]
}

/// The key `excludesFile`.
pub open spec fn excludes_file_key() -> Seq<u8> {
    seq![101u8, 120u8, 99u8, 108u8, 117u8, 100u8, 101u8, 115u8, 70u8, 105u8, 108u8, 101u8]
}

/// The name of a section header `[name]`.
pub open spec fn section_name(t: Seq<u8>) -> Option<Seq<u8>> {
    if t.len() >= 2 && t[0] == OPEN_BRACKET && t.last() == CLOSE_BRACKET {
        Some(t.subrange(1, t.len() - 1))
    } else {
        None
    }
}

/// The length of the run of non-whitespace bytes that `s` starts with.
pub open spec fn word_len(s: Seq<u8>) -> nat
    decreases s.len(),
{
    if s.len() == 0 || is_ascii_space(s[0]) {
        0
    } else {
        1 + word_len(s.drop_first())
    }
}

/// A run of non-whitespace bytes is no longer than the bytes.
pub proof fn lemma_word_len_bounds(s: Seq<u8>)
    ensures
        word_len(s) <= s.len(),
        s.len() > 0 && !is_ascii_space(s[0]) ==> word_len(s) > 0,
    decreases s.len(),
{
    if s.len() > 0 && !is_ascii_space(s[0]) {
        lemma_word_len_bounds(s.drop_first());
    }
}

/// The whitespace-separated tokens of `s`, in order.
pub open spec fn tokens_of(s: Seq<u8>) -> Seq<Seq<u8>>
    decreases s.len(),
{
    if s.len() == 0 {
        Seq::empty()
    } else if is_ascii_space(s[0]) {
        tokens_of(s.drop_first())
    } else {
        proof {
            lemma_word_len_bounds(s);
        }
        seq![s.take(word_len(s) as int)] + tokens_of(s.skip(word_len(s) as int))
    }
}

/// The tokens of an `excludesFile` value: what precedes a `#` comment,
/// trimmed, split at whitespace.
pub open spec fn value_tokens(value: Seq<u8>) -> Seq<Seq<u8>> {
    let uncommented = match split_once(value, HASH) {
        Some((head, _)) => head,
        None => value,
    };
    tokens_of(trim_ascii(uncommented))
}

/// What one cleaned line of a config file does: whether the lines after it
/// are in the `core` section, and the `excludesFile` tokens it gives.
pub open spec fn config_line(t: Seq<u8>, in_core: bool) -> (bool, Seq<Seq<u8>>) {
    match section_name(t) {
        Some(section) => (equal_ignoring_ascii_case(section, core_section()), Seq::empty()),
        None => if !in_core {
            (false, Seq::empty())
        } else {
            match split_once(t, EQUALS) {
                Some((key, value)) => if equal_ignoring_ascii_case(
                    trim_ascii(key),
                    excludes_file_key(),
                ) {
                    (true, value_tokens(trim_ascii(value)))
                } else {
                    (true, Seq::empty())
                },
                None => (true, Seq::empty()),
            }
        },
    }
}

/// `base` joined with `p` as a path: `p` itself when it is absolute,
/// otherwise `base`, a `/` unless `base` is empty or ends with one, and `p`.
pub open spec fn join_path(base: Seq<u8>, p: Seq<u8>) -> Seq<u8> {
    if p.len() > 0 && p[0] == SLASH {
        p
    } else if base.len() == 0 || base.last() == SLASH {
        base + p
    } else {
        base.push(SLASH) + p
    }
}

/// The path that an `excludesFile` token names: `~` is the home directory,
/// `~/rest` is `rest` under it (nothing without a home directory), an
/// absolute path is itself, and a relative one is taken from the config
/// file's directory when it has one.
pub open spec fn expand_path(raw: Seq<u8>, home: Option<Seq<u8>>, config_dir: Option<Seq<u8>>) -> Option<Seq<u8>> {
    if raw == seq![TILDE] {
        home
    } else if raw.len() >= 2 && raw[0] == TILDE && raw[1] == SLASH {
        match home {
            Some(h) => Some(join_path(h, raw.skip(2))),
            None => None,
        }
    } else if raw.len() > 0 && raw[0] == SLASH {
        Some(raw)
    } else {
        match config_dir {
            Some(d) => Some(join_path(d, raw)),
            None => Some(raw),
        }
    }
}

/// The paths that a list of tokens names, leaving out those that name none.
pub open spec fn expand_all(tokens: Seq<Seq<u8>>, home: Option<Seq<u8>>, config_dir: Option<Seq<u8>>) -> Seq<Seq<u8>>
    decreases tokens.len(),
{
    if tokens.len() == 0 {
        Seq::empty()
    } else {
        let before = expand_all(tokens.drop_last(), home, config_dir);
        match expand_path(tokens.last(), home, config_dir) {
            Some(p) => before.push(p),
            None => before,
        }
    }
}

/// The excludes files that a git config file names: the paths of the
/// `excludesFile` tokens of its `[core]` sections, in order, starting
/// outside any section.
pub open spec fn config_excludes(raw: Seq<u8>, in_core: bool, home: Option<Seq<u8>>, config_dir: Option<Seq<u8>>) -> Seq<Seq<u8>>
    decreases raw.len(),
{
    match first_position(raw, NEWLINE) {
        Some(i) => {
            proof {
                lemma_first_position_bounds(raw, NEWLINE);
            }
            let (next_in_core, tokens) = config_line(clean_line(raw.take(i)), in_core);
            expand_all(tokens, home, config_dir) + config_excludes(
                raw.skip(i + 1),
                next_in_core,
                home,
                config_dir,
            )
        },
        None => expand_all(config_line(clean_line(raw), in_core).1, home, config_dir),
    }
}

/// The byte strings that a list holds.
pub open spec fn byte_views(v: Seq<Vec<u8>>) -> Seq<Seq<u8>> {
    v.map_values(|b: Vec<u8>| b@)
}

/// The bytes that an optional byte string holds.
pub open spec fn opt_view(o: Option<Vec<u8>>) -> Option<Seq<u8>> {
    match o {
        Some(v) => Some(v@),
        None => None,
    }
}

/// `base` joined with `p` as a path.
fn join(base: &[u8], p: &[u8]) -> (res: Vec<u8>)
    ensures
        res@ == join_path(base@, p@),
{
    if p.len() > 0 && p[0] == SLASH {
        return to_vec(p);
    }
    let mut out = to_vec(base);
    if !(base.len() == 0 || base[base.len() - 1] == SLASH) {
        out.push(SLASH);
    }
    append_bytes(&mut out, p);
    out
}

/// The path that an `excludesFile` token names; see `expand_path`.
pub fn expand_config_path(raw: &[u8], home: &Option<Vec<u8>>, config_dir: &Option<Vec<u8>>) -> (res: Option<Vec<u8>>)
    ensures
        opt_view(res) == expand_path(raw@, opt_view(*home), opt_view(*config_dir)),
{
    if raw.len() == 1 && raw[0] == TILDE {
        assert(raw@ =~= seq![TILDE]);
        return match home {
            Some(h) => Some(to_vec(h.as_slice())),
            None => None,
        };
    }
    assert(raw@ != seq![TILDE]) by {
        if raw@ == seq![TILDE] {
            assert(raw@.len() == 1 && raw@[0] == TILDE);
        }
    }
    if raw.len() >= 2 && raw[0] == TILDE && raw[1] == SLASH {
        return match home {
            Some(h) => Some(join(h.as_slice(), &raw[2..raw.len()])),
            None => None,
        };
    }
    if raw.len() > 0 && raw[0] == SLASH {
        return Some(to_vec(raw));
    }
    match config_dir {
        Some(d) => Some(join(d.as_slice(), raw)),
        None => Some(to_vec(raw)),
    }
}

/// The byte strings that a list of slices holds.
pub open spec fn slice_views(v: Seq<&[u8]>) -> Seq<Seq<u8>> {
    v.map_values(|b: &[u8]| b@)
}

/// A run of `n` non-whitespace bytes that whitespace or the end follows.
proof fn lemma_word_len_run(t: Seq<u8>, n: int)
    requires
        0 <= n <= t.len(),
        forall|k: int| 0 <= k < n ==> !#[trigger] is_ascii_space(t[k]),
        n == t.len() || is_ascii_space(t[n]),
    ensures
        word_len(t) == n,
    decreases n,
{
    if n > 0 {
        assert forall|k: int| 0 <= k < n - 1 implies !#[trigger] is_ascii_space(
            t.drop_first()[k],
        ) by {
            assert(t.drop_first()[k] == t[k + 1]);
        }
        if n < t.len() {
            assert(t.drop_first()[n - 1] == t[n]);
        }
        lemma_word_len_run(t.drop_first(), n - 1);
    }
}

/// The whitespace-separated tokens of `s`, in order.
fn split_tokens(s: &[u8]) -> (res: Vec<&[u8]>)
    ensures
        slice_views(res@) == tokens_of(s@),
{
    let mut out: Vec<&[u8]> = Vec::new();
    let mut i: usize = 0;
    assert(s@.skip(0) =~= s@);
    while i < s.len()
        invariant
            i <= s.len(),
            slice_views(out@) + tokens_of(s@.skip(i as int)) == tokens_of(s@),
        decreases s.len() - i,
    {
        let ghost rest = s@.skip(i as int);
        if is_space(s[i]) {
            assert(rest.drop_first() =~= s@.skip(i + 1));
            i = i + 1;
        } else {
            let mut j = i;
            while j < s.len() && !is_space(s[j])
                invariant
                    i <= j <= s.len(),
                    forall|k: int| i <= k < j ==> !#[trigger] is_ascii_space(s@[k]),
                decreases s.len() - j,
            {
                j = j + 1;
            }
            proof {
                assert forall|k: int| 0 <= k < j - i implies !#[trigger] is_ascii_space(rest[k]) by {
                    assert(rest[k] == s@[i + k]);
                }
                if j < s.len() {
                    assert(rest[j - i] == s@[j as int]);
                }
                lemma_word_len_run(rest, j - i);
            }
            let ghost before = out@;
            let token = &s[i..j];
            out.push(token);
            proof {
                assert(token@ =~= rest.take(j - i));
                assert(rest.skip(j - i) =~= s@.skip(j as int));
                assert(slice_views(out@) =~= slice_views(before).push(token@));
                assert(seq![rest.take(j - i)] + tokens_of(s@.skip(j as int)) == tokens_of(rest));
                assert(slice_views(out@) + tokens_of(s@.skip(j as int)) =~= slice_views(before)
                    + tokens_of(rest));
            }
            i = j;
        }
    }
    assert(s@.skip(s.len() as int) =~= Seq::<u8>::empty());
    assert(slice_views(out@) =~= slice_views(out@) + tokens_of(s@.skip(i as int)));
    out
}

/// Appends the paths that the tokens name.
fn push_expanded(
    out: &mut Vec<Vec<u8>>,
    tokens: &Vec<&[u8]>,
    home: &Option<Vec<u8>>,
    config_dir: &Option<Vec<u8>>,
)
    ensures
        byte_views(final(out)@) == byte_views(old(out)@) + expand_all(
            slice_views(tokens@),
            opt_view(*home),
            opt_view(*config_dir),
        ),
{
    let ghost start = byte_views(out@);
    let ghost all = slice_views(tokens@);
    let mut i: usize = 0;
    assert(all.take(0) =~= Seq::<Seq<u8>>::empty());
    while i < tokens.len()
        invariant
            i <= tokens.len(),
            all == slice_views(tokens@),
            byte_views(out@) == start + expand_all(all.take(i as int), opt_view(*home), opt_view(*config_dir)),
        decreases tokens.len() - i,
    {
        let ghost before = out@;
        assert(all.take(i + 1).drop_last() =~= all.take(i as int));
        assert(all.take(i + 1).last() == tokens@[i as int]@);
        match expand_config_path(tokens[i], home, config_dir) {
            Some(p) => {
                out.push(p);
                assert(byte_views(out@) =~= byte_views(before).push(p@));
            },
            None => {},
        }
        i = i + 1;
    }
    assert(all.take(tokens.len() as int) =~= all);
}

/// Applies one cleaned config line: appends the paths it names and returns
/// whether the next line is in the `core` section.
fn apply_config_line(
    t: &[u8],
    in_core: bool,
    home: &Option<Vec<u8>>,
    config_dir: &Option<Vec<u8>>,
    out: &mut Vec<Vec<u8>>,
) -> (res: bool)
    ensures
        res == config_line(t@, in_core).0,
        byte_views(final(out)@) == byte_views(old(out)@) + expand_all(
            config_line(t@, in_core).1,
            opt_view(*home),
            opt_view(*config_dir),
        ),
{
    let ghost none: Seq<Seq<u8>> = Seq::empty();
    assert(expand_all(none, opt_view(*home), opt_view(*config_dir)) == none);
    assert(byte_views(out@) + none =~= byte_views(out@));
    if t.len() >= 2 && t[0] == OPEN_BRACKET && t[t.len() - 1] == CLOSE_BRACKET {
        let section = &t[1..t.len() - 1];
        let core: [u8; 4] = [99u8, 111u8, 114u8, 101u8];
        assert(core@ =~= core_section());
        return eq_ignore_ascii_case(section, &core);
    }
    if !in_core {
        return false;
    }
    match split_once_byte(t, EQUALS) {
        Some((key, value)) => {
            let key = trim_ascii_whitespace(key);
            let excludes: [u8; 12] = [
                101u8,
                120u8,
                99u8,
                108u8,
                117u8,
                100u8,
                101u8,
                115u8,
                70u8,
                105u8,
                108u8,
                101u8,
            ];
            assert(excludes@ =~= excludes_file_key());
            if eq_ignore_ascii_case(key, &excludes) {
                let value = trim_ascii_whitespace(value);
                let uncommented = match split_once_byte(value, HASH) {
                    Some((head, _)) => head,
                    None => value,
                };
                let tokens = split_tokens(trim_ascii_whitespace(uncommented));
                push_expanded(out, &tokens, home, config_dir);
            }
            true
        },
        None => true,
    }
}

/// The excludes files that a git config file names: for each
/// `excludesFile` entry of a `[core]` section (section and key in any case),
/// the whitespace-separated paths of its value before any `#` comment, with
/// `~` taken from `home` and relative paths from `config_dir`, the config
/// file's directory.
pub fn parse_excludes_files_from_config(
    raw: &[u8],
    home: &Option<Vec<u8>>,
    config_dir: &Option<Vec<u8>>,
) -> (res: Vec<Vec<u8>>)
    ensures
        byte_views(res@) == config_excludes(raw@, false, opt_view(*home), opt_view(*config_dir)),
{
    let ghost h = opt_view(*home);
    let ghost d = opt_view(*config_dir);
    let mut files: Vec<Vec<u8>> = Vec::new();
    let mut start: usize = 0;
    let mut in_core = false;
    assert(raw@.skip(0) =~= raw@);
    assert(byte_views(files@) =~= Seq::<Seq<u8>>::empty());
    loop
        invariant_except_break
            byte_views(files@) + config_excludes(raw@.skip(start as int), in_core, h, d)
                == config_excludes(raw@, false, h, d),
        invariant
            start <= raw.len(),
            h == opt_view(*home),
            d == opt_view(*config_dir),
        ensures
            byte_views(files@) == config_excludes(raw@, false, h, d),
        decreases raw.len() - start,
    {
        let ghost rest = raw@.skip(start as int);
        let ghost before = byte_views(files@);
        let nl = find_from(raw, start, NEWLINE);
        let end = match nl {
            Some(i) => i,
            None => raw.len(),
        };
        proof {
            lemma_first_position(
                rest,
                NEWLINE,
                match nl {
                    Some(i) => Some(i - start),
                    None => None,
                },
            );
        }
        let line = &raw[start..end];
        assert(line@ =~= rest.take(end - start));
        let cleaned = trim_ascii_whitespace(strip_trailing_cr(line));
        let next_in_core = apply_config_line(cleaned, in_core, home, config_dir, &mut files);
        match nl {
            Some(i) => {
                assert(raw@.skip(i + 1) =~= rest.skip(i - start + 1));
                assert(byte_views(files@) + config_excludes(raw@.skip(i + 1), next_in_core, h, d)
                    =~= before + config_excludes(rest, in_core, h, d));
                start = i + 1;
                in_core = next_in_core;
            },
            None => {
                assert(rest.take(end - start) =~= rest);
                assert(byte_views(files@) =~= before + config_excludes(rest, in_core, h, d));
                break;
            },
        }
    }
    files
}

/// `.gitconfig`.
pub open spec fn dot_gitconfig() -> Seq<u8> {
    seq![46u8, 103u8, 105u8, 116u8, 99u8, 111u8, 110u8, 102u8, 105u8, 103u8]
}

/// `git/config`.
pub open spec fn git_config() -> Seq<u8> {
    seq![103u8, 105u8, 116u8, 47u8, 99u8, 111u8, 110u8, 102u8, 105u8, 103u8]
}

/// `.config/git/config`.
pub open spec fn dot_config_git_config() -> Seq<u8> {
    seq![46u8, 99u8, 111u8, 110u8, 102u8, 105u8, 103u8, 47u8] + git_config()
}

/// Where git's global configuration may be: `~/.gitconfig` when there is a
/// home directory, then `$XDG_CONFIG_HOME/git/config` when that variable is
/// set and not empty, or else `~/.config/git/config` when it is unset.
pub open spec fn gitconfig_candidates(home: Option<Seq<u8>>, xdg: Option<Seq<u8>>) -> Seq<Seq<u8>> {
    let first: Seq<Seq<u8>> = match home {
        Some(h) => seq![join_path(h, dot_gitconfig())],
        None => Seq::empty(),
    };
    match xdg {
        Some(x) => if x.len() > 0 {
            first.push(join_path(x, git_config()))
        } else {
            first
        },
        None => match home {
            Some(h) => first.push(join_path(h, dot_config_git_config())),
            None => first,
        },
    }
}

/// Where git's global configuration may be, from the home directory and the
/// value of `XDG_CONFIG_HOME`; see `gitconfig_candidates`.
pub fn global_gitconfig_candidates(home: &Option<Vec<u8>>, xdg_config_home: &Option<Vec<u8>>) -> (res: Vec<Vec<u8>>)
    ensures
        byte_views(res@) == gitconfig_candidates(opt_view(*home), opt_view(*xdg_config_home)),
{
    let mut paths: Vec<Vec<u8>> = Vec::new();
    let gitconfig: [u8; 10] = [46u8, 103u8, 105u8, 116u8, 99u8, 111u8, 110u8, 102u8, 105u8, 103u8];
    let git_cfg: [u8; 10] = [103u8, 105u8, 116u8, 47u8, 99u8, 111u8, 110u8, 102u8, 105u8, 103u8];
    let config_git_cfg: [u8; 18] = [
        46u8,
        99u8,
        111u8,
        110u8,
        102u8,
        105u8,
        103u8,
        47u8,
        103u8,
        105u8,
        116u8,
        47u8,
        99u8,
        111u8,
        110u8,
        102u8,
        105u8,
        103u8,
    ];
    assert(gitconfig@ =~= dot_gitconfig());
    assert(git_cfg@ =~= git_config());
    assert(config_git_cfg@ =~= dot_config_git_config());
    match home {
        Some(h) => {
            paths.push(join(h.as_slice(), &gitconfig));
        },
        None => {},
    }
    let ghost first = byte_views(paths@);
    assert(first =~= match opt_view(*home) {
        Some(h) => seq![join_path(h, dot_gitconfig())],
        None => Seq::<Seq<u8>>::empty(),
    });
    match xdg_config_home {
        Some(x) => {
            if x.len() > 0 {
                paths.push(join(x.as_slice(), &git_cfg));
                assert(byte_views(paths@) =~= first.push(join_path(x@, git_config())));
            }
        },
        None => match home {
            Some(h) => {
                paths.push(join(h.as_slice(), &config_git_cfg));
                assert(byte_views(paths@) =~= first.push(join_path(h@, dot_config_git_config())));
            },
            None => {},
        },
    }
    paths
}

/// The rules of a list of ignore files, in order; an unreadable file
/// (`None`) gives none.
pub open spec fn rules_of_files(files: Seq<Option<Vec<u8>>>) -> Seq<u8>
    decreases files.len(),
{
    if files.len() == 0 {
        Seq::empty()
    } else {
        rules_of_files(files.drop_last()) + match files.last() {
            Some(raw) => ignore_rules(raw@),
            None => Seq::empty(),
        }
    }
}

/// Finds ignore rules for a traversal that starts in a given directory.
pub struct IgnoreMatcher {
    start_dir: Option<Vec<u8>>,
}

impl IgnoreMatcher {
    /// The canonical path of the directory the traversal starts in, if it
    /// could be resolved.
    pub closed spec fn start(&self) -> Option<Seq<u8>> {
        opt_view(self.start_dir)
    }

    /// A matcher for a traversal from `start_dir`, given as a canonical path
    /// (`None` when it could not be resolved).
    pub fn new(start_dir: Option<Vec<u8>>) -> (res: IgnoreMatcher)
        ensures
            res.start() == opt_view(start_dir),
    {
        IgnoreMatcher { start_dir }
    }

    /// Whether the current directory's `.gitignore` applies: when the
    /// traversal starts in the current directory, both taken canonically.
    pub fn should_read_current_dir_gitignore(&self, current_dir_canonical: &Option<Vec<u8>>) -> (res: bool)
        ensures
            res == (self.start() is Some && opt_view(*current_dir_canonical) == self.start()),
    {
        match (&self.start_dir, current_dir_canonical) {
            (Some(start), Some(current)) => {
                let same = start.len() == current.len() && bytes_equal(start.as_slice(), current.as_slice());
                proof {
                    if start@ == current@ {
                        assert(start@.len() == current@.len());
                    }
                }
                same
            },
            _ => false,
        }
    }

    /// The ignore rules that apply: those of git's global excludes files
    /// (`excludes_files`, the contents of the files that the global config
    /// files name, in order, `None` where a file could not be read), then
    /// those of the current directory's `.gitignore` when the traversal
    /// starts there. `None` when there are no rules at all.
    pub fn gitconfig_contents(
        &self,
        excludes_files: &Vec<Option<Vec<u8>>>,
        current_dir_canonical: &Option<Vec<u8>>,
        local_gitignore: &Option<Vec<u8>>,
    ) -> (res: Option<Vec<u8>>)
        ensures
            ({
                let local = if self.start() is Some && opt_view(*current_dir_canonical) == self.start() {
                    match *local_gitignore {
                        Some(raw) => ignore_rules(raw@),
                        None => Seq::empty(),
                    }
                } else {
                    Seq::empty()
                };
                let all = rules_of_files(excludes_files@) + local;
                opt_view(res) == if all.len() > 0 {
                    Some(all)
                } else {
                    None
                }
            }),
    {
        let mut output: Vec<u8> = Vec::new();
        let mut found_any = false;
        let mut i: usize = 0;
        assert(excludes_files@.take(0) =~= Seq::<Option<Vec<u8>>>::empty());
        while i < excludes_files.len()
            invariant
                i <= excludes_files.len(),
                output@ == rules_of_files(excludes_files@.take(i as int)),
                found_any == (output@.len() > 0),
            decreases excludes_files.len() - i,
        {
            assert(excludes_files@.take(i + 1).drop_last() =~= excludes_files@.take(i as int));
            match &excludes_files[i] {
                Some(raw) => {
                    if append_filtered_ignore_lines(raw.as_slice(), &mut output) {
                        found_any = true;
                    }
                },
                None => {
                    assert(output@ =~= output@ + Seq::<u8>::empty());
                },
            }
            i = i + 1;
        }
        assert(excludes_files@.take(excludes_files.len() as int) =~= excludes_files@);
        if self.should_read_current_dir_gitignore(current_dir_canonical) {
            match local_gitignore {
                Some(raw) => {
                    if append_filtered_ignore_lines(raw.as_slice(), &mut output) {
                        found_any = true;
                    }
                },
                None => {},
            }
        }
        assert(output@ =~= output@ + Seq::<u8>::empty());
        if found_any {
            Some(output)
        } else {
            None
        }
    }
}


/// A line of an ignore file is a rule unless it is empty or a comment once
/// cleaned (without a final `\r` and surrounding whitespace): every other
/// line, a negated rule `!pattern` as much as any, is kept as it was cleaned,
/// followed by a line feed; an empty line or one that starts with `#` gives
/// nothing.
pub proof fn lemma_kept_lines(l: Seq<u8>)
    ensures
        clean_line(l).len() > 0 && clean_line(l)[0] != 35u8 ==> kept_line(l) == clean_line(l)
            + seq![10u8],
        clean_line(l).len() == 0 || clean_line(l)[0] == 35u8 ==> kept_line(l).len() == 0,
{
    if clean_line(l).len() > 0 && clean_line(l)[0] != 35u8 {
        assert(clean_line(l).push(NEWLINE) =~= clean_line(l) + seq![10u8]);
    }
}

/// The rules of an ignore file are gathered line by line: a line (holding
/// no line feed) followed by a line feed and the rest of the file gives what
/// the line gives, then the rules of the rest; a last line without a line
/// feed gives what it gives alone.
pub proof fn lemma_rules_line_by_line(line: Seq<u8>, rest: Seq<u8>)
    requires
        forall|i: int| 0 <= i < line.len() ==> #[trigger] line[i] != 10u8,
    ensures
        ignore_rules(line + seq![10u8] + rest) == kept_line(line) + ignore_rules(rest),
        ignore_rules(line) == kept_line(line),
{
    let raw = line + seq![10u8] + rest;
    let n = line.len() as int;
    assert(raw[n] == NEWLINE);
    assert forall|j: int| 0 <= j < n implies #[trigger] raw[j] != NEWLINE by {
        assert(raw[j] == line[j]);
    }
    assert(is_first_index(raw, NEWLINE, n));
    let k = choose|i: int| is_first_index(raw, NEWLINE, i);
    if k < n {
        assert(raw[k] == line[k]);
    }
    if k > n {
        assert(raw[n] != NEWLINE);
    }
    assert(first_position(raw, NEWLINE) == Some(n));
    assert(raw.take(n) =~= line);
    assert(raw.skip(n + 1) =~= rest);
    if exists|i: int| is_first_index(line, NEWLINE, i) {
        let i = choose|i: int| is_first_index(line, NEWLINE, i);
        assert(line[i] == NEWLINE);
    }
    assert(first_position(line, NEWLINE) is None);
}

} // verus!
