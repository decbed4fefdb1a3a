//! Sorted, duplicate-free sequences: the canonical order in which glob
//! conversion lists class members and alternatives.
use vstd::prelude::*;

verus! {

/// `lt` is a strict total order.
pub open spec fn strict_total_order<T>(lt: spec_fn(T, T) -> bool) -> bool {
    &&& forall|a: T| !(#[trigger] lt(a, a))
    &&& forall|a: T, b: T, c: T| #[trigger] lt(a, b) && #[trigger] lt(b, c) ==> lt(a, c)
    &&& forall|a: T, b: T| a != b ==> #[trigger] lt(a, b) || #[trigger] lt(b, a)
}

/// Every element of `s` is below every later one.
pub open spec fn strictly_sorted<T>(s: Seq<T>, lt: spec_fn(T, T) -> bool) -> bool {
    forall|i: int, j: int| 0 <= i < j < s.len() ==> #[trigger] lt(s[i], s[j])
}

/// The strictly sorted sequence that holds exactly the members of `set`.
pub open spec fn sorted_members<T>(set: Set<T>, lt: spec_fn(T, T) -> bool) -> Seq<T> {
    choose|s: Seq<T>| strictly_sorted(s, lt) && s.to_set() == set
}

/// Two strictly sorted sequences with the same members are equal.
pub proof fn lemma_sorted_unique<T>(a: Seq<T>, b: Seq<T>, lt: spec_fn(T, T) -> bool)
    requires
        strict_total_order(lt),
        strictly_sorted(a, lt),
        strictly_sorted(b, lt),
        a.to_set() == b.to_set(),
    ensures
        a == b,
    decreases a.len(),
{
    if a.len() == 0 {
        assert(b.len() == 0) by {
            if b.len() > 0 {
                assert(b.to_set().contains(b[0]));
                assert(a.to_set().contains(b[0]));
            }
        }
        assert(a =~= b);
    } else {
        if b.len() == 0 {
            assert(a.to_set().contains(a[0]));
        }
        assert(b.to_set().contains(a[0]));
        assert(a.to_set().contains(b[0]));
        let k = choose|k: int| 0 <= k < b.len() && b[k] == a[0];
        let m = choose|m: int| 0 <= m < a.len() && a[m] == b[0];
        if k > 0 && m > 0 {
            assert(lt(b[0], b[k]));
            assert(lt(a[0], a[m]));
            assert(lt(a[0], a[0]));
        }
        assert(a[0] == b[0]);
        let a1 = a.drop_first();
        let b1 = b.drop_first();
        assert forall|x: T| a1.to_set().contains(x) implies b1.to_set().contains(x) by {
            let i = choose|i: int| 0 <= i < a1.len() && a1[i] == x;
            assert(lt(a[0], a[i + 1]));
            assert(b.to_set().contains(x));
            let j = choose|j: int| 0 <= j < b.len() && b[j] == x;
            if j == 0 {
                assert(lt(x, x));
            }
            assert(b1[j - 1] == x);
        }
        assert forall|x: T| b1.to_set().contains(x) implies a1.to_set().contains(x) by {
            let i = choose|i: int| 0 <= i < b1.len() && b1[i] == x;
            assert(lt(b[0], b[i + 1]));
            assert(a.to_set().contains(x));
            let j = choose|j: int| 0 <= j < a.len() && a[j] == x;
            if j == 0 {
                assert(lt(x, x));
            }
            assert(a1[j - 1] == x);
        }
        assert(a1.to_set() =~= b1.to_set());
        lemma_sorted_unique(a1, b1, lt);
        assert(a.len() == b.len());
        assert forall|i: int| 0 <= i < a.len() implies a[i] == b[i] by {
            if i > 0 {
                assert(a[i] == a1[i - 1]);
                assert(b[i] == b1[i - 1]);
            }
        }
        assert(a =~= b);
    }
}

/// A strictly sorted sequence of the members of `set` is `sorted_members(set, lt)`.
pub proof fn lemma_is_sorted_members<T>(s: Seq<T>, set: Set<T>, lt: spec_fn(T, T) -> bool)
    requires
        strict_total_order(lt),
        strictly_sorted(s, lt),
        s.to_set() == set,
    ensures
        sorted_members(set, lt) == s,
{
    let c = sorted_members(set, lt);
    assert(strictly_sorted(c, lt) && c.to_set() == set);
    lemma_sorted_unique(c, s, lt);
}

/// The order of characters by code point.
pub open spec fn char_lt(a: char, b: char) -> bool {
    (a as int) < (b as int)
}

/// `char_lt` as a value.
pub open spec fn char_order() -> spec_fn(char, char) -> bool {
    |a: char, b: char| char_lt(a, b)
}

/// `pair_lt` as a value.
pub open spec fn pair_order() -> spec_fn((char, char), (char, char)) -> bool {
    |a: (char, char), b: (char, char)| pair_lt(a, b)
}

/// `text_lt` as a value.
pub open spec fn text_order() -> spec_fn(Seq<char>, Seq<char>) -> bool {
    |a: Seq<char>, b: Seq<char>| text_lt(a, b)
}

/// The lexicographic order of character pairs.
pub open spec fn pair_lt(a: (char, char), b: (char, char)) -> bool {
    char_lt(a.0, b.0) || (a.0 == b.0 && char_lt(a.1, b.1))
}

/// The lexicographic order of character sequences, a proper prefix first.
pub open spec fn text_lt(a: Seq<char>, b: Seq<char>) -> bool
    decreases a.len(),
{
    if a.len() == 0 {
        b.len() > 0
    } else if b.len() == 0 {
        false
    } else if a[0] != b[0] {
        char_lt(a[0], b[0])
    } else {
        text_lt(a.drop_first(), b.drop_first())
    }
}

pub proof fn lemma_char_lt_total()
    ensures
        strict_total_order(char_order()),
{
    assert forall|a: char, b: char| a != b implies char_lt(a, b) || char_lt(b, a) by {
        assert((a as int) != (b as int));
    }
}

pub proof fn lemma_pair_lt_total()
    ensures
        strict_total_order(pair_order()),
{
    assert forall|a: (char, char), b: (char, char)| a != b implies pair_lt(a, b) || pair_lt(b, a) by {
        assert((a.0 as int) != (b.0 as int) || (a.1 as int) != (b.1 as int));
    }
}

proof fn lemma_text_lt_irreflexive(a: Seq<char>)
    ensures
        !text_lt(a, a),
    decreases a.len(),
{
    if a.len() > 0 {
        lemma_text_lt_irreflexive(a.drop_first());
    }
}

proof fn lemma_text_lt_transitive(a: Seq<char>, b: Seq<char>, c: Seq<char>)
    requires
        text_lt(a, b),
        text_lt(b, c),
    ensures
        text_lt(a, c),
    decreases a.len(),
{
    if a.len() > 0 && b.len() > 0 && c.len() > 0 && a[0] == b[0] && b[0] == c[0] {
        lemma_text_lt_transitive(a.drop_first(), b.drop_first(), c.drop_first());
    }
}

proof fn lemma_text_lt_connected(a: Seq<char>, b: Seq<char>)
    requires
        a != b,
    ensures
        text_lt(a, b) || text_lt(b, a),
    decreases a.len(),
{
    if a.len() == 0 || b.len() == 0 {
        if a.len() == 0 && b.len() == 0 {
            assert(a =~= b);
        }
    } else if a[0] != b[0] {
        assert((a[0] as int) != (b[0] as int));
    } else {
        if a.drop_first() == b.drop_first() {
            assert(a =~= seq![a[0]] + a.drop_first());
            assert(b =~= seq![b[0]] + b.drop_first());
        }
        lemma_text_lt_connected(a.drop_first(), b.drop_first());
    }
}

pub proof fn lemma_text_lt_total()
    ensures
        strict_total_order(text_order()),
{
    assert forall|a: Seq<char>| !text_lt(a, a) by {
        lemma_text_lt_irreflexive(a);
    }
    assert forall|a: Seq<char>, b: Seq<char>, c: Seq<char>|
        text_lt(a, b) && text_lt(b, c) implies text_lt(a, c) by {
        lemma_text_lt_transitive(a, b, c);
    }
    assert forall|a: Seq<char>, b: Seq<char>| a != b implies text_lt(a, b) || text_lt(b, a) by {
        lemma_text_lt_connected(a, b);
    }
}

/// Inserting `c` between the members below it and those above it keeps the
/// sequence strictly sorted and adds `c` to its members.
pub proof fn lemma_sorted_insert<T>(before: Seq<T>, i: int, c: T, lt: spec_fn(T, T) -> bool)
    requires
        strict_total_order(lt),
        strictly_sorted(before, lt),
        0 <= i <= before.len(),
        forall|k: int| 0 <= k < i ==> #[trigger] lt(before[k], c),
        i < before.len() ==> lt(c, before[i]),
    ensures
        strictly_sorted(before.insert(i, c), lt),
        before.insert(i, c).to_set() == before.to_set().insert(c),
{
    let v = before.insert(i, c);
    assert forall|p: int, q: int| 0 <= p < q < v.len() implies #[trigger] lt(v[p], v[q]) by {
        if q < i {
            assert(lt(before[p], before[q]));
        } else if q == i {
            assert(lt(before[p], c));
        } else if p == i {
            if q - 1 > i {
                assert(lt(before[i], before[q - 1]));
            }
        } else if p < i {
            assert(lt(before[p], before[q - 1]));
        } else {
            assert(lt(before[p - 1], before[q - 1]));
        }
    }
    assert forall|x: T| v.to_set().contains(x) <==> before.to_set().insert(c).contains(x) by {
        if v.to_set().contains(x) {
            assert(v.contains(x));
            let k = choose|k: int| 0 <= k < v.len() && v[k] == x;
            if k < i {
                assert(before[k] == x);
                assert(before.contains(x));
            } else if k > i {
                assert(before[k - 1] == x);
                assert(before.contains(x));
            }
        }
        if before.to_set().insert(c).contains(x) {
            if x == c {
                assert(v[i] == c);
                assert(v.contains(x));
            } else {
                assert(before.contains(x));
                let k = choose|k: int| 0 <= k < before.len() && before[k] == x;
                if k < i {
                    assert(v[k] == x);
                } else {
                    assert(v[k + 1] == x);
                }
                assert(v.contains(x));
            }
        }
    }
    assert(v.to_set() =~= before.to_set().insert(c));
}

/// Inserts `c` into the strictly sorted `v` unless it is already there.
pub fn insert_char_sorted(v: &mut Vec<char>, c: char)
    requires
        strictly_sorted(old(v)@, char_order()),
    ensures
        strictly_sorted(final(v)@, char_order()),
        final(v)@.to_set() == old(v)@.to_set().insert(c),
{
    let mut i: usize = 0;
    while i < v.len()
        invariant
            0 <= i <= v.len(),
            v@ == old(v)@,
            forall|k: int| 0 <= k < i ==> char_lt(#[trigger] v@[k], c),
        ensures
            0 <= i <= v.len(),
            v@ == old(v)@,
            forall|k: int| 0 <= k < i ==> char_lt(#[trigger] v@[k], c),
            i < v.len() ==> (v@[i as int] == c || char_lt(c, v@[i as int])),
        decreases v.len() - i,
    {
        if v[i] == c || c < v[i] {
            break;
        }
        i = i + 1;
    }
    if i < v.len() && v[i] == c {
        assert(v@.to_set().insert(c) =~= v@.to_set()) by {
            assert(v@.contains(c));
        }
        return;
    }
    proof {
        lemma_char_lt_total();
        lemma_sorted_insert(v@, i as int, c, char_order());
    }
    v.insert(i, c);
}

/// Inserts the pair `c` into the strictly sorted `v` unless it is already there.
pub fn insert_pair_sorted(v: &mut Vec<(char, char)>, c: (char, char))
    requires
        strictly_sorted(old(v)@, pair_order()),
    ensures
        strictly_sorted(final(v)@, pair_order()),
        final(v)@.to_set() == old(v)@.to_set().insert(c),
{
    let mut i: usize = 0;
    while i < v.len()
        invariant
            0 <= i <= v.len(),
            v@ == old(v)@,
            forall|k: int| 0 <= k < i ==> pair_lt(#[trigger] v@[k], c),
        ensures
            0 <= i <= v.len(),
            v@ == old(v)@,
            forall|k: int| 0 <= k < i ==> pair_lt(#[trigger] v@[k], c),
            i < v.len() ==> (v@[i as int] == c || pair_lt(c, v@[i as int])),
        decreases v.len() - i,
    {
        let cur = v[i];
        if cur.0 == c.0 && cur.1 == c.1 {
            break;
        }
        if c.0 < cur.0 || (c.0 == cur.0 && c.1 < cur.1) {
            break;
        }
        i = i + 1;
    }
    if i < v.len() && v[i].0 == c.0 && v[i].1 == c.1 {
        assert(v@[i as int] == c);
        assert(v@.to_set().insert(c) =~= v@.to_set()) by {
            assert(v@.contains(c));
        }
        return;
    }
    proof {
        lemma_pair_lt_total();
        lemma_sorted_insert(v@, i as int, c, pair_order());
    }
    v.insert(i, c);
}

/// Compares two character sequences lexicographically.
pub fn text_less(a: &Vec<char>, b: &Vec<char>) -> (res: bool)
    ensures
        res == text_lt(a@, b@),
{
    let mut i: usize = 0;
    while i < a.len() && i < b.len()
        invariant
            0 <= i <= a.len(),
            i <= b.len(),
            forall|k: int| 0 <= k < i ==> a@[k] == b@[k],
        decreases a.len() - i,
    {
        if a[i] != b[i] {
            proof {
                lemma_text_lt_at(a@, b@, i as int);
            }
            return a[i] < b[i];
        }
        i = i + 1;
    }
    proof {
        lemma_text_lt_at(a@, b@, i as int);
    }
    i < b.len() && i == a.len()
}

/// `text_lt` is decided at the first position where the sequences differ,
/// or by length when one is a prefix of the other.
proof fn lemma_text_lt_at(a: Seq<char>, b: Seq<char>, i: int)
    requires
        0 <= i <= a.len(),
        i <= b.len(),
        forall|k: int| 0 <= k < i ==> a[k] == b[k],
    ensures
        i < a.len() && i < b.len() && a[i] != b[i] ==> text_lt(a, b) == char_lt(a[i], b[i]),
        (i == a.len() || i == b.len()) ==> text_lt(a, b) == (i == a.len() && i < b.len()),
    decreases i,
{
    if i > 0 {
        lemma_text_lt_at(a.drop_first(), b.drop_first(), i - 1);
    }
}

/// Whether two character sequences are equal.
pub fn text_equal(a: &Vec<char>, b: &Vec<char>) -> (res: bool)
    ensures
        res == (a@ == b@),
{
    if a.len() != b.len() {
        return false;
    }
    let mut i: usize = 0;
    while i < a.len()
        invariant
            0 <= i <= a.len(),
            a.len() == b.len(),
            forall|k: int| 0 <= k < i ==> a@[k] == b@[k],
        decreases a.len() - i,
    {
        if a[i] != b[i] {
            return false;
        }
        i = i + 1;
    }
    assert(a@ =~= b@);
    true
}

/// Inserts `c` into the lexicographically sorted `v` unless it is already there.
pub fn insert_text_sorted(v: &mut Vec<Vec<char>>, c: Vec<char>)
    requires
        strictly_sorted(old(v)@.map_values(|t: Vec<char>| t@), text_order()),
    ensures
        strictly_sorted(final(v)@.map_values(|t: Vec<char>| t@), text_order()),
        final(v)@.map_values(|t: Vec<char>| t@).to_set()
            == old(v)@.map_values(|t: Vec<char>| t@).to_set().insert(c@),
{
    let ghost views = v@.map_values(|t: Vec<char>| t@);
    let mut i: usize = 0;
    while i < v.len()
        invariant
            0 <= i <= v.len(),
            v@ == old(v)@,
            views == v@.map_values(|t: Vec<char>| t@),
            forall|k: int| 0 <= k < i ==> text_lt(#[trigger] views[k], c@),
        ensures
            0 <= i <= v.len(),
            v@ == old(v)@,
            forall|k: int| 0 <= k < i ==> text_lt(#[trigger] views[k], c@),
            i < v.len() ==> (views[i as int] == c@ || text_lt(c@, views[i as int])),
        decreases v.len() - i,
    {
        if text_equal(&v[i], &c) || text_less(&c, &v[i]) {
            break;
        }
        proof {
            lemma_text_lt_total();
            assert(views[i as int] == v@[i as int]@);
            assert(text_order()(views[i as int], c@) || text_order()(c@, views[i as int]));
        }
        i = i + 1;
    }
    if i < v.len() && text_equal(&v[i], &c) {
        assert(views.to_set().insert(c@) =~= views.to_set()) by {
            assert(views[i as int] == c@);
            assert(views.contains(c@));
        }
        return;
    }
    proof {
        lemma_text_lt_total();
        lemma_sorted_insert(views, i as int, c@, text_order());
    }
    v.insert(i, c);
    assert(v@.map_values(|t: Vec<char>| t@) =~= views.insert(i as int, c@));
}

} // verus!
