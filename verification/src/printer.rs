//! How a found path is written out: an optional leading `./` stripped,
//! optionally quoted, a `/` after a directory, ended with a line feed or a
//! NUL, and in colour or not.
use vstd::prelude::*;
use vstd::multiset::Multiset;
use crate::bytes::append_bytes;
use crate::file_type::FileType;

verus! {

/// The byte `"`.
pub const QUOTE: u8 = 34;

/// The escape sequence that resets the terminal's colour.
pub open spec fn reset() -> Seq<u8> {
    seq![27u8, 91u8, 48u8, 109u8]
}

/// What precedes a path: a quote when quoting.
pub open spec fn entry_prefix(quoted: bool) -> Seq<u8> {
    if quoted {
        seq![QUOTE]
    } else {
        Seq::empty()
    }
}

/// What follows a plain path: `/` after a directory, the closing quote when
/// quoting, then a line feed or a NUL.
pub open spec fn plain_suffix(is_dir: bool, quoted: bool, null_terminated: bool) -> Seq<u8> {
    let slash: Seq<u8> = if is_dir {
        seq![47u8]
    } else {
        Seq::empty()
    };
    slash + entry_prefix(quoted) + seq![if null_terminated {
        0u8
    } else {
        10u8
    }]
}

/// What follows a coloured path: `/` after a directory, the colour reset,
/// the closing quote when quoting, then a line feed.
pub open spec fn coloured_suffix(is_dir: bool, quoted: bool) -> Seq<u8> {
    let slash: Seq<u8> = if is_dir {
        seq![47u8]
    } else {
        Seq::empty()
    };
    slash + reset() + entry_prefix(quoted) + seq![10u8]
}

/// The part of a path that is printed: without its first two bytes (`./`)
/// when stripping.
pub open spec fn printed_part(path: Seq<u8>, strip_leading_dot_slash: bool) -> Seq<u8> {
    if strip_leading_dot_slash {
        path.skip(2)
    } else {
        path
    }
}

/// The printed part of a path.
fn part(path: &[u8], strip_leading_dot_slash: bool) -> (res: &[u8])
    requires
        strip_leading_dot_slash ==> path.len() >= 2,
    ensures
        res@ == printed_part(path@, strip_leading_dot_slash),
{
    if strip_leading_dot_slash {
        &path[2..path.len()]
    } else {
        assert(path@.subrange(0, path.len() as int) =~= path@);
        &path[0..path.len()]
    }
}

/// The bytes written for one path without colour.
pub fn format_entry(
    path: &[u8],
    is_dir: bool,
    null_terminated: bool,
    strip_leading_dot_slash: bool,
    quoted: bool,
) -> (res: Vec<u8>)
    requires
        strip_leading_dot_slash ==> path.len() >= 2,
    ensures
        res@ == entry_prefix(quoted) + printed_part(path@, strip_leading_dot_slash) + plain_suffix(
            is_dir,
            quoted,
            null_terminated,
        ),
{
    let mut out: Vec<u8> = Vec::new();
    if quoted {
        out.push(QUOTE);
    }
    assert(out@ =~= entry_prefix(quoted));
    append_bytes(&mut out, part(path, strip_leading_dot_slash));
    let ghost body = out@;
    if is_dir {
        out.push(47u8);
    }
    if quoted {
        out.push(QUOTE);
    }
    out.push(
        if null_terminated {
            0u8
        } else {
            10u8
        },
    );
    assert(out@ =~= body + plain_suffix(is_dir, quoted, null_terminated));
    out
}

/// The bytes written for one path in colour: the colour's escape sequence
/// before the path, the reset after it.
pub fn format_coloured_entry(
    path: &[u8],
    colour: &[u8],
    is_dir: bool,
    strip_leading_dot_slash: bool,
    quoted: bool,
) -> (res: Vec<u8>)
    requires
        strip_leading_dot_slash ==> path.len() >= 2,
    ensures
        res@ == entry_prefix(quoted) + colour@ + printed_part(path@, strip_leading_dot_slash)
            + coloured_suffix(is_dir, quoted),
{
    let mut out: Vec<u8> = Vec::new();
    if quoted {
        out.push(QUOTE);
    }
    assert(out@ =~= entry_prefix(quoted));
    append_bytes(&mut out, colour);
    append_bytes(&mut out, part(path, strip_leading_dot_slash));
    let ghost body = out@;
    if is_dir {
        out.push(47u8);
    }
    let reset_code: [u8; 4] = [27u8, 91u8, 48u8, 109u8];
    assert(reset_code@ =~= reset());
    append_bytes(&mut out, &reset_code);
    if quoted {
        out.push(QUOTE);
    }
    out.push(10u8);
    assert(out@ =~= body + coloured_suffix(is_dir, quoted));
    out
}

/// The ASCII upper case form of a character.
pub open spec fn ascii_upper(c: char) -> char {
    if 'a' <= c <= 'z' {
        ((c as u32) - 32) as char
    } else {
        c
    }
}

/// The text is `TRUE` in any ASCII case.
pub open spec fn says_true(t: Seq<char>) -> bool {
    t.len() == 4 && ascii_upper(t[0]) == 'T' && ascii_upper(t[1]) == 'R' && ascii_upper(t[2]) == 'U'
        && ascii_upper(t[3]) == 'E'
}

/// Whether a text is `TRUE` in any ASCII case.
fn is_true(t: &str) -> (res: bool)
    ensures
        res == says_true(t@),
{
    let chars = crate::text::str_chars(t);
    if chars.len() != 4 {
        return false;
    }
    let expected = ['T', 'R', 'U', 'E'];
    let mut i: usize = 0;
    while i < 4
        invariant
            i <= 4,
            chars@ == t@,
            chars@.len() == 4,
            expected@ == seq!['T', 'R', 'U', 'E'],
            forall|j: int| 0 <= j < i ==> ascii_upper(#[trigger] chars@[j]) == expected@[j],
        decreases 4 - i,
    {
        let c = chars[i];
        let up = if 'a' <= c && c <= 'z' {
            ((c as u32) - 32) as u8 as char
        } else {
            c
        };
        assert(up == ascii_upper(c)) by {
            if 'a' <= c && c <= 'z' {
                assert(((c as u32) - 32) < 256);
            }
        }
        if up != expected[i] {
            return false;
        }
        i = i + 1;
    }
    true
}

/// Whether colour is off: when asked for, or when `NO_COLOUR` or `NO_COLOR`
/// (their values given, `None` when unset) is `TRUE` in any case.
pub fn colour_disabled(nocolour: bool, no_colour: Option<&str>, no_color: Option<&str>) -> (res: bool)
    ensures
        res == (nocolour || (no_colour matches Some(v) && says_true(v@)) || (no_color matches Some(v)
            && says_true(v@))),
{
    if nocolour {
        return true;
    }
    let by_colour = match no_colour {
        Some(v) => is_true(v),
        None => false,
    };
    if by_colour {
        return true;
    }
    match no_color {
        Some(v) => is_true(v),
        None => false,
    }
}

/// How many paths are printed: all of them without a limit.
pub fn print_limit(max_results: Option<usize>) -> (res: usize)
    ensures
        res == match max_results {
            Some(l) => l,
            None => usize::MAX,
        },
{
    match max_results {
        Some(l) => l,
        None => usize::MAX,
    }
}

/// The order of byte strings that `[u8]` compares by: at the first byte
/// where they differ, or the shorter first when one is a prefix of the other.
pub open spec fn bytes_lt(a: Seq<u8>, b: Seq<u8>) -> bool
    decreases a.len(),
{
    if a.len() == 0 {
        b.len() > 0
    } else if b.len() == 0 {
        false
    } else if a[0] != b[0] {
        a[0] < b[0]
    } else {
        bytes_lt(a.drop_first(), b.drop_first())
    }
}

/// No byte string is below itself.
pub proof fn lemma_bytes_lt_irreflexive(a: Seq<u8>)
    ensures
        !bytes_lt(a, a),
    decreases a.len(),
{
    if a.len() > 0 {
        lemma_bytes_lt_irreflexive(a.drop_first());
    }
}

/// The order is transitive.
pub proof fn lemma_bytes_lt_transitive(a: Seq<u8>, b: Seq<u8>, c: Seq<u8>)
    requires
        bytes_lt(a, b),
        bytes_lt(b, c),
    ensures
        bytes_lt(a, c),
    decreases a.len(),
{
    if a.len() > 0 && b.len() > 0 && c.len() > 0 && a[0] == b[0] && b[0] == c[0] {
        lemma_bytes_lt_transitive(a.drop_first(), b.drop_first(), c.drop_first());
    }
}

/// Any two byte strings are equal or ordered one way.
pub proof fn lemma_bytes_lt_total(a: Seq<u8>, b: Seq<u8>)
    ensures
        a == b || bytes_lt(a, b) || bytes_lt(b, a),
    decreases a.len(),
{
    if a.len() > 0 && b.len() > 0 && a[0] == b[0] {
        lemma_bytes_lt_total(a.drop_first(), b.drop_first());
        if a.drop_first() == b.drop_first() {
            assert(a =~= seq![a[0]] + a.drop_first());
            assert(b =~= seq![b[0]] + b.drop_first());
        }
    } else if a.len() == 0 && b.len() == 0 {
        assert(a =~= b);
    }
}

/// A byte string below another is not above it.
pub proof fn lemma_bytes_lt_asymmetric(a: Seq<u8>, b: Seq<u8>)
    requires
        bytes_lt(a, b),
    ensures
        !bytes_lt(b, a),
{
    if bytes_lt(b, a) {
        lemma_bytes_lt_transitive(a, b, a);
        lemma_bytes_lt_irreflexive(a);
    }
}

/// Whether `a` comes before `b` in the order of byte strings.
pub fn bytes_less(a: &[u8], b: &[u8]) -> (res: bool)
    ensures
        res == bytes_lt(a@, b@),
{
    let mut i: usize = 0;
    assert(a@.skip(0) =~= a@ && b@.skip(0) =~= b@);
    while i < a.len() && i < b.len()
        invariant
            i <= a.len(),
            i <= b.len(),
            bytes_lt(a@, b@) == bytes_lt(a@.skip(i as int), b@.skip(i as int)),
        decreases a.len() - i,
    {
        if a[i] != b[i] {
            return a[i] < b[i];
        }
        assert(a@.skip(i as int).drop_first() =~= a@.skip(i + 1));
        assert(b@.skip(i as int).drop_first() =~= b@.skip(i + 1));
        i = i + 1;
    }
    i < b.len()
}

/// The entries (paths, each with whether it is a directory) are in the order
/// of their paths.
pub open spec fn sorted_by_path(s: Seq<(Vec<u8>, bool)>) -> bool {
    forall|i: int, j: int| 0 <= i < j < s.len() ==> !bytes_lt(#[trigger] s[j].0@, #[trigger] s[i].0@)
}

/// Puts `x` into a list sorted by path, after the entries whose paths are
/// not above its own.
fn insert_sorted(out: &mut Vec<(Vec<u8>, bool)>, x: (Vec<u8>, bool))
    requires
        sorted_by_path(old(out)@),
    ensures
        sorted_by_path(final(out)@),
        final(out)@.to_multiset() == old(out)@.to_multiset().insert(x),
{
    let mut p: usize = 0;
    while p < out.len() && !bytes_less(x.0.as_slice(), out[p].0.as_slice())
        invariant
            p <= out.len(),
            forall|i: int| 0 <= i < p ==> !bytes_lt(x.0@, #[trigger] out@[i].0@),
        decreases out.len() - p,
    {
        p = p + 1;
    }
    let ghost before = out@;
    proof {
        vstd::seq_lib::to_multiset_insert(before, p as int, x);
    }
    out.insert(p, x);
    proof {
        assert(out@ == before.insert(p as int, x));
        assert forall|i: int, j: int| 0 <= i < j < out@.len() implies !bytes_lt(
            #[trigger] out@[j].0@,
            #[trigger] out@[i].0@,
        ) by {
            if j < p {
                assert(out@[i] == before[i] && out@[j] == before[j]);
            } else if j == p {
                assert(out@[i] == before[i]);
                assert(!bytes_lt(x.0@, before[i].0@));
            } else if i == p {
                assert(out@[j] == before[j - 1]);
                assert(bytes_lt(x.0@, before[p as int].0@));
                if j - 1 > p {
                    assert(!bytes_lt(before[j - 1].0@, before[p as int].0@));
                    lemma_bytes_lt_total(before[p as int].0@, before[j - 1].0@);
                    if bytes_lt(before[p as int].0@, before[j - 1].0@) {
                        lemma_bytes_lt_transitive(x.0@, before[p as int].0@, before[j - 1].0@);
                    }
                }
                lemma_bytes_lt_asymmetric(x.0@, before[j - 1].0@);
            } else if i < p {
                assert(out@[i] == before[i] && out@[j] == before[j - 1]);
            } else {
                assert(out@[i] == before[i - 1] && out@[j] == before[j - 1]);
            }
        }
    }
}

/// The entries in the order of their paths; no entry is lost or added.
pub fn sort_entries(entries: Vec<(Vec<u8>, bool)>) -> (res: Vec<(Vec<u8>, bool)>)
    ensures
        sorted_by_path(res@),
        res@.to_multiset() == entries@.to_multiset(),
{
    let ghost all = entries@;
    let mut rest = entries;
    let mut out: Vec<(Vec<u8>, bool)> = Vec::new();
    proof {
        assert(out@.to_multiset() =~= Multiset::<(Vec<u8>, bool)>::empty()) by {
            broadcast use vstd::seq_lib::to_multiset_len;
            assert(out@.to_multiset().len() == 0);
        }
        broadcast use vstd::multiset::group_multiset_axioms;
        assert(out@.to_multiset().add(rest@.to_multiset()) =~= all.to_multiset());
    }
    while rest.len() > 0
        invariant
            sorted_by_path(out@),
            out@.to_multiset().add(rest@.to_multiset()) == all.to_multiset(),
        decreases rest.len(),
    {
        let ghost before_rest = rest@;
        let ghost before_out = out@;
        let x = rest.remove(0);
        proof {
            vstd::seq_lib::to_multiset_remove(before_rest, 0);
        }
        insert_sorted(&mut out, x);
        proof {
            broadcast use vstd::multiset::group_multiset_axioms;
            assert(before_rest.to_multiset().remove(x).insert(x) =~= before_rest.to_multiset()) by {
                vstd::seq_lib::to_multiset_contains(before_rest, x);
                assert(before_rest[0] == x);
                assert(before_rest.contains(x));
            }
            assert(out@.to_multiset().add(rest@.to_multiset()) =~= before_out.to_multiset().add(
                before_rest.to_multiset(),
            ));
        }
    }
    proof {
        broadcast use vstd::multiset::group_multiset_axioms;
        broadcast use vstd::seq_lib::to_multiset_len;
        assert(rest@.to_multiset().len() == 0);
        assert(rest@.to_multiset() =~= Multiset::<(Vec<u8>, bool)>::empty());
        assert(out@.to_multiset().add(rest@.to_multiset()) =~= out@.to_multiset());
    }
    out
}


/// The key under which the `LS_COLORS` table holds an entry's colour: the
/// extension of a regular (or unknown) file, a directory's or a link's own
/// key (a link whose target is a directory is coloured as one), and the keys
/// of the special files. `None` for a regular file without an extension,
/// which is not coloured.
pub open spec fn colour_key(file_type: FileType, extension: Option<Seq<u8>>, link_to_directory: bool) -> Option<Seq<u8>> {
    match file_type {
        FileType::RegularFile | FileType::Unknown => extension,
        FileType::Directory => Some("directory"@.map_values(|c: char| c as u8)),
        FileType::Symlink => if link_to_directory {
            Some("directory"@.map_values(|c: char| c as u8))
        } else {
            Some("symlink"@.map_values(|c: char| c as u8))
        },
        FileType::BlockDevice => Some("block_device"@.map_values(|c: char| c as u8)),
        FileType::CharDevice => Some("character_device"@.map_values(|c: char| c as u8)),
        FileType::Socket => Some("socket"@.map_values(|c: char| c as u8)),
        FileType::Pipe => Some("pipe"@.map_values(|c: char| c as u8)),
    }
}

/// The bytes of an ASCII text.
fn ascii_bytes(text: &str) -> (res: Vec<u8>)
    requires
        forall|i: int| 0 <= i < text@.len() ==> (#[trigger] text@[i] as u32) < 256,
    ensures
        res@ == text@.map_values(|c: char| c as u8),
{
    let chars = crate::text::str_chars(text);
    let mut out: Vec<u8> = Vec::new();
    let mut i: usize = 0;
    while i < chars.len()
        invariant
            i <= chars.len(),
            chars@ == text@,
            forall|j: int| 0 <= j < text@.len() ==> (#[trigger] text@[j] as u32) < 256,
            out@ == text@.take(i as int).map_values(|c: char| c as u8),
        decreases chars.len() - i,
    {
        let c = chars[i];
        assert((c as u32) < 256);
        out.push(c as u8);
        i = i + 1;
        assert(out@ =~= text@.take(i as int).map_values(|c: char| c as u8));
    }
    assert(text@.take(chars.len() as int) =~= text@);
    out
}

/// The key to look an entry's colour up by; see [`colour_key`].
pub fn colour_key_of(file_type: FileType, extension: Option<&[u8]>, link_to_directory: bool) -> (res: Option<Vec<u8>>)
    ensures
        match colour_key(
            file_type,
            match extension {
                Some(e) => Some(e@),
                None => None,
            },
            link_to_directory,
        ) {
            Some(k) => res matches Some(r) && r@ == k,
            None => res is None,
        },
{
    proof {
        reveal_strlit("directory");
        reveal_strlit("symlink");
        reveal_strlit("block_device");
        reveal_strlit("character_device");
        reveal_strlit("socket");
        reveal_strlit("pipe");
    }
    match file_type {
        FileType::RegularFile | FileType::Unknown => match extension {
            Some(e) => Some(crate::bytes::to_vec(e)),
            None => None,
        },
        FileType::Directory => Some(ascii_bytes("directory")),
        FileType::Symlink => if link_to_directory {
            Some(ascii_bytes("directory"))
        } else {
            Some(ascii_bytes("symlink"))
        },
        FileType::BlockDevice => Some(ascii_bytes("block_device")),
        FileType::CharDevice => Some(ascii_bytes("character_device")),
        FileType::Socket => Some(ascii_bytes("socket")),
        FileType::Pipe => Some(ascii_bytes("pipe")),
    }
}

/// `compile_time_ls_colours::colour_path`: the escape sequence that the
/// `LS_COLORS` table, built into that crate when it was compiled, holds for
/// a key, if it holds one. The table comes from the build's environment, so
/// nothing is stated of the result.
#[verifier::external_body]
fn ls_colour(key: &[u8]) -> Option<Vec<u8>> {
    compile_time_ls_colours::colour_path(key).map(|c| c.to_vec())
}

/// The colour to write an entry in, from what the table gave for its key
/// (`looked_up`, `None` when there was no key or the table holds none for
/// it): that colour, or the reset sequence, which leaves the text as it is.
pub fn colour_from_lookup(looked_up: Option<Vec<u8>>) -> (res: Vec<u8>)
    ensures
        res@ == match looked_up {
            Some(c) => c@,
            None => reset(),
        },
{
    match looked_up {
        Some(c) => c,
        None => {
            let code: [u8; 4] = [27u8, 91u8, 48u8, 109u8];
            assert(code@ =~= reset());
            crate::bytes::to_vec(&code)
        },
    }
}

/// The colour to write an entry in: the table's colour for its key (see
/// [`colour_key`]); the reset sequence for an entry without a key, and for a
/// key that the table does not hold.
pub fn entry_colour(file_type: FileType, extension: Option<&[u8]>, link_to_directory: bool) -> (res: Vec<u8>)
    ensures
        colour_key(
            file_type,
            match extension {
                Some(e) => Some(e@),
                None => None,
            },
            link_to_directory,
        ) is None ==> res@ == reset(),
{
    match colour_key_of(file_type, extension, link_to_directory) {
        None => colour_from_lookup(None),
        Some(key) => colour_from_lookup(ls_colour(key.as_slice())),
    }
}

} // verus!
