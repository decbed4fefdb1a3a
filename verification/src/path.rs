//! Paths held as bytes: the extension of a name, a comparison of extensions
//! that ignores ASCII case, and where the file name of a path starts.
use vstd::prelude::*;
use crate::memchr::{is_last_index, last_index_of, memrchr};

verus! {

/// The byte `.`.
pub const DOT: u8 = 46;
/// The byte `/`.
pub const SLASH: u8 = 47;

/// The path without its final byte (nothing left of an empty path).
pub open spec fn without_last(p: Seq<u8>) -> Seq<u8> {
    if p.len() > 0 {
        p.take(p.len() - 1)
    } else {
        p
    }
}

/// What follows the last `.` of a path, where a `.` in final position does
/// not count; `None` when there is no such `.`.
pub open spec fn extension_of(p: Seq<u8>) -> Option<Seq<u8>> {
    if exists|i: int| is_last_index(without_last(p), DOT, i) {
        let i = choose|i: int| is_last_index(without_last(p), DOT, i);
        Some(p.skip(i + 1))
    } else {
        None
    }
}

/// A byte with ASCII upper case letters mapped to lower case.
pub open spec fn ascii_lower(b: u8) -> u8 {
    if 65 <= b <= 90 {
        (b + 32) as u8
    } else {
        b
    }
}

/// The two byte strings are equal when ASCII letters are compared without
/// regard to case.
pub open spec fn equal_ignoring_ascii_case(a: Seq<u8>, b: Seq<u8>) -> bool {
    a.len() == b.len() && forall|i: int| 0 <= i < a.len() ==> #[trigger] ascii_lower(a[i])
        == ascii_lower(b[i])
}

/// Where the file name of a path starts: just after its last `/`, at 0 when
/// there is none (the whole path is the name), and at 0 in a path of one
/// byte (so the name of `/` is `/`).
pub open spec fn file_name_start(p: Seq<u8>) -> int {
    if p.len() == 1 {
        0
    } else if exists|i: int| is_last_index(p, SLASH, i) {
        (choose|i: int| is_last_index(p, SLASH, i)) + 1
    } else {
        0
    }
}

/// Two positions that are both the last of a byte are the same.
proof fn lemma_last_index_unique(s: Seq<u8>, c: u8, i: int, j: int)
    requires
        is_last_index(s, c, i),
        is_last_index(s, c, j),
    ensures
        i == j,
{
    if i < j {
        assert(s[j] != c);
    } else if j < i {
        assert(s[i] != c);
    }
}

/// `b` with an ASCII upper case letter mapped to lower case.
fn to_ascii_lower(b: u8) -> (res: u8)
    ensures
        res == ascii_lower(b),
{
    if 65 <= b && b <= 90 {
        b + 32
    } else {
        b
    }
}

/// Whether the two byte strings are equal when ASCII letters are compared
/// without regard to case.
pub fn eq_ignore_ascii_case(a: &[u8], b: &[u8]) -> (res: bool)
    ensures
        res == equal_ignoring_ascii_case(a@, b@),
{
    if a.len() != b.len() {
        return false;
    }
    let mut i: usize = 0;
    while i < a.len()
        invariant
            i <= a.len(),
            a.len() == b.len(),
            forall|j: int| 0 <= j < i ==> #[trigger] ascii_lower(a@[j]) == ascii_lower(b@[j]),
        decreases a.len() - i,
    {
        if to_ascii_lower(a[i]) != to_ascii_lower(b[i]) {
            return false;
        }
        i = i + 1;
    }
    true
}

/// The extension of a path: what follows its last `.`, unless that `.` is
/// the final byte.
pub fn extension(path: &[u8]) -> (res: Option<&[u8]>)
    ensures
        match extension_of(path@) {
            Some(e) => res matches Some(r) && r@ == e,
            None => res is None,
        },
{
    let body: &[u8] = if path.len() > 0 {
        &path[0..path.len() - 1]
    } else {
        path
    };
    assert(body@ == without_last(path@));
    match memrchr(DOT, body) {
        Some(pos) => {
            proof {
                let i = choose|i: int| is_last_index(without_last(path@), DOT, i);
                lemma_last_index_unique(body@, DOT, i, pos as int);
            }
            Some(&path[pos + 1..path.len()])
        },
        None => {
            proof {
                if exists|i: int| is_last_index(without_last(path@), DOT, i) {
                    let i = choose|i: int| is_last_index(without_last(path@), DOT, i);
                    assert(body@[i] == DOT);
                }
            }
            None
        },
    }
}

/// Whether the path has an extension equal to `ext` without regard to ASCII
/// case.
pub fn matches_extension(path: &[u8], ext: &[u8]) -> (res: bool)
    ensures
        res == match extension_of(path@) {
            Some(e) => equal_ignoring_ascii_case(e, ext@),
            None => false,
        },
{
    match extension(path) {
        Some(e) => eq_ignore_ascii_case(e, ext),
        None => false,
    }
}

/// Where the file name of a path starts: just after its last `/`, at 1 when
/// there is none, and at 0 in a path of one byte.
pub fn file_name_index(path: &[u8]) -> (res: usize)
    ensures
        res == file_name_start(path@),
{
    if path.len() == 1 {
        return 0;
    }
    match memrchr(SLASH, path) {
        Some(pos) => {
            proof {
                let i = choose|i: int| is_last_index(path@, SLASH, i);
                lemma_last_index_unique(path@, SLASH, i, pos as int);
            }
            pos + 1
        },
        None => {
            proof {
                if exists|i: int| is_last_index(path@, SLASH, i) {
                    let i = choose|i: int| is_last_index(path@, SLASH, i);
                    assert(path@[i] == SLASH);
                }
            }
            0
        },
    }
}

/// The length of the run of bytes other than `/` that `s` starts with.
pub open spec fn component_len(s: Seq<u8>) -> nat
    decreases s.len(),
{
    if s.len() == 0 || s[0] == SLASH {
        0
    } else {
        1 + component_len(s.drop_first())
    }
}

/// A run of bytes other than `/` is no longer than the bytes.
pub proof fn lemma_component_len_bounds(s: Seq<u8>)
    ensures
        component_len(s) <= s.len(),
        s.len() > 0 && s[0] != SLASH ==> component_len(s) > 0,
    decreases s.len(),
{
    if s.len() > 0 && s[0] != SLASH {
        lemma_component_len_bounds(s.drop_first());
    }
}

/// The components of a path: the pieces between slashes, empty ones left
/// out, in order.
pub open spec fn path_components(s: Seq<u8>) -> Seq<Seq<u8>>
    decreases s.len(),
{
    if s.len() == 0 {
        Seq::empty()
    } else if s[0] == SLASH {
        path_components(s.drop_first())
    } else {
        proof {
            lemma_component_len_bounds(s);
        }
        seq![s.take(component_len(s) as int)] + path_components(s.skip(component_len(s) as int))
    }
}

/// A run of `n` bytes other than `/` that a `/` or the end follows.
proof fn lemma_component_run(t: Seq<u8>, n: int)
    requires
        0 <= n <= t.len(),
        forall|k: int| 0 <= k < n ==> #[trigger] t[k] != SLASH,
        n == t.len() || t[n] == SLASH,
    ensures
        component_len(t) == n,
    decreases n,
{
    if n > 0 {
        assert forall|k: int| 0 <= k < n - 1 implies #[trigger] t.drop_first()[k] != SLASH by {
            assert(t.drop_first()[k] == t[k + 1]);
        }
        if n < t.len() {
            assert(t.drop_first()[n - 1] == t[n]);
        }
        lemma_component_run(t.drop_first(), n - 1);
    }
}

/// The byte strings that a list of slices holds.
pub open spec fn piece_views(v: Seq<&[u8]>) -> Seq<Seq<u8>> {
    v.map_values(|b: &[u8]| b@)
}

/// Returns the components of the path: the pieces between slashes, with
/// empty ones left out.
pub fn components(path: &[u8]) -> (res: Vec<&[u8]>)
    ensures
        piece_views(res@) == path_components(path@),
{
    let mut out: Vec<&[u8]> = Vec::new();
    let mut i: usize = 0;
    assert(path@.skip(0) =~= path@);
    while i < path.len()
        invariant
            i <= path.len(),
            piece_views(out@) + path_components(path@.skip(i as int)) == path_components(path@),
        decreases path.len() - i,
    {
        let ghost rest = path@.skip(i as int);
        if path[i] == SLASH {
            assert(rest.drop_first() =~= path@.skip(i + 1));
            i = i + 1;
        } else {
            let mut j = i;
            while j < path.len() && path[j] != SLASH
                invariant
                    i <= j <= path.len(),
                    forall|k: int| i <= k < j ==> #[trigger] path@[k] != SLASH,
                decreases path.len() - j,
            {
                j = j + 1;
            }
            proof {
                assert forall|k: int| 0 <= k < j - i implies #[trigger] rest[k] != SLASH by {
                    assert(rest[k] == path@[i + k]);
                }
                if j < path.len() {
                    assert(rest[j - i] == path@[j as int]);
                }
                lemma_component_run(rest, j - i);
            }
            let ghost before = out@;
            let piece = &path[i..j];
            out.push(piece);
            proof {
                assert(piece@ =~= rest.take(j - i));
                assert(rest.skip(j - i) =~= path@.skip(j as int));
                assert(piece_views(out@) =~= piece_views(before).push(piece@));
                assert(piece_views(out@) + path_components(path@.skip(j as int)) =~= piece_views(
                    before,
                ) + path_components(rest));
            }
            i = j;
        }
    }
    assert(path@.skip(path.len() as int) =~= Seq::<u8>::empty());
    assert(piece_views(out@) =~= piece_views(out@) + path_components(path@.skip(i as int)));
    out
}

} // verus!
