//! Shell glob-like filename matching, expressed as regular expressions.
//!
//! - any character except `?`, `*`, `[`, `\`, or `{` is copied to the
//!   expression (`]`, `}` and `.` escaped)
//! - `?` matches any single character except a slash (`/`)
//! - `*` matches any sequence of characters (`.*`)
//! - a backslash escapes the next character, except for the `\a`, `\b`, `\e`,
//!   `\f`, `\n`, `\r`, `\t` and `\v` sequences, which stand for control characters
//! - a `[...]` character class supports ranges, negation if the very first
//!   character is `!`, backslash-escaping, and matching a `]` character if it
//!   is the very first character possibly after the `!` one
//! - an `{a,bbb,cc}` alternation supports backslash-escaping, but not
//!   nested alternations or character classes
//!
//! Character classes never match a slash.
use vstd::prelude::*;
use regex::Regex;
use crate::text::{append_chars, str_chars, string_from_chars};
use crate::sorted::{
    char_order, insert_char_sorted, insert_pair_sorted, insert_text_sorted, lemma_char_lt_total,
    lemma_is_sorted_members, lemma_pair_lt_total, lemma_text_lt_total, pair_order, sorted_members,
    strictly_sorted, text_order,
};

verus! {

/// Something that may appear in a character class.
#[derive(Debug, Clone, Copy, PartialEq, Eq)]
pub enum ClassItem {
    /// A single character.
    Char(char),
    /// A range of characters, both ends included.
    Range(char, char),
}

/// An accumulator for building the representation of a character class.
#[derive(Debug)]
pub struct ClassAccumulator {
    /// Is the class negated (i.e. was `!` the first character).
    pub negated: bool,
    /// The characters or ranges in the class, in order of appearance.
    pub items: Vec<ClassItem>,
}

/// The mathematical content of a class accumulator.
pub struct ClassSpec {
    pub negated: bool,
    pub items: Seq<ClassItem>,
}

impl View for ClassAccumulator {
    type V = ClassSpec;

    open spec fn view(&self) -> ClassSpec {
        ClassSpec { negated: self.negated, items: self.items@ }
    }
}

/// Concatenates a sequence of texts, the last one last.
pub open spec fn concat_all(s: Seq<Seq<char>>) -> Seq<char>
    decreases s.len(),
{
    if s.len() == 0 {
        Seq::empty()
    } else {
        concat_all(s.drop_last()) + s.last()
    }
}

/// Characters that have a meaning of their own in a regular expression outside
/// a class, and are escaped by a backslash there.
pub open spec fn is_regex_special(c: char) -> bool {
    c == '[' || c == '{' || c == '(' || c == '|' || c == '^' || c == '$' || c == '.' || c == '*'
        || c == '?' || c == '+' || c == '\\'
}

/// A character as it stands in a regular expression outside a class.
pub open spec fn escape_text(c: char) -> Seq<char> {
    if is_regex_special(c) {
        seq!['\\', c]
    } else {
        seq![c]
    }
}

/// A character as it stands inside a regular expression class.
pub open spec fn escape_in_class_text(c: char) -> Seq<char> {
    if c == ']' || c == '\\' {
        seq!['\\', c]
    } else {
        seq![c]
    }
}

/// The character that a backslash sequence stands for.
pub open spec fn letter_escape(c: char) -> char {
    if c == 'a' {
        '\x07'
    } else if c == 'b' {
        '\x08'
    } else if c == 'e' {
        '\x1b'
    } else if c == 'f' {
        '\x0c'
    } else if c == 'n' {
        '\x0a'
    } else if c == 'r' {
        '\x0d'
    } else if c == 't' {
        '\x09'
    } else if c == 'v' {
        '\x0b'
    } else {
        c
    }
}

/// Escape a character in a character class if necessary: only the backslash
/// itself and the closing bracket.
fn escape_in_class(chr: char) -> (res: Vec<char>)
    ensures
        res@ == escape_in_class_text(chr),
{
    if chr == ']' || chr == '\\' {
        vec!['\\', chr]
    } else {
        vec![chr]
    }
}

/// Escape a character outside of a character class if necessary.
fn escape(chr: char) -> (res: Vec<char>)
    ensures
        res@ == escape_text(chr),
{
    if chr == '[' || chr == '{' || chr == '(' || chr == '|' || chr == '^' || chr == '$' || chr
        == '.' || chr == '*' || chr == '?' || chr == '+' || chr == '\\' {
        vec!['\\', chr]
    } else {
        vec![chr]
    }
}

/// Interpret an escaped character: return the one that was meant.
fn map_letter_escape(chr: char) -> (res: char)
    ensures
        res == letter_escape(chr),
{
    if chr == 'a' {
        '\x07'
    } else if chr == 'b' {
        '\x08'
    } else if chr == 'e' {
        '\x1b'
    } else if chr == 'f' {
        '\x0c'
    } else if chr == 'n' {
        '\x0a'
    } else if chr == 'r' {
        '\x0d'
    } else if chr == 't' {
        '\x09'
    } else if chr == 'v' {
        '\x0b'
    } else {
        chr
    }
}

/// Unescape a character and escape it if needed.
fn escape_special(chr: char) -> (res: Vec<char>)
    ensures
        res@ == escape_text(letter_escape(chr)),
{
    escape(map_letter_escape(chr))
}

// ---------------------------------------------------------------- classes

/// What a sequence holds after a push.
proof fn lemma_push_contains<T>(s: Seq<T>, x: T, y: T)
    ensures
        s.push(x).contains(y) == (s.contains(y) || x == y),
{
    if s.contains(y) {
        let k = choose|k: int| 0 <= k < s.len() && s[k] == y;
        assert(s.push(x)[k] == y);
    }
    if x == y {
        assert(s.push(x)[s.len() as int] == y);
    }
    if s.push(x).contains(y) {
        let k = choose|k: int| 0 <= k < s.len() + 1 && s.push(x)[k] == y;
        if k < s.len() {
            assert(s[k] == y);
        }
    }
}

/// Whether a class item matches the character `c`.
pub open spec fn item_covers(it: ClassItem, c: char) -> bool {
    match it {
        ClassItem::Char(x) => x == c,
        ClassItem::Range(s, e) => (s as int) <= (c as int) && (c as int) <= (e as int),
    }
}

/// Whether some item of a class matches `c`.
pub open spec fn items_cover(items: Seq<ClassItem>, c: char) -> bool {
    exists|i: int| 0 <= i < items.len() && item_covers(#[trigger] items[i], c)
}

/// The items that one item becomes when the slash is taken out of it.
pub open spec fn exclude_slash_item(it: ClassItem) -> Seq<ClassItem> {
    match it {
        ClassItem::Char(c) => if c == '/' {
            Seq::empty()
        } else {
            seq![it]
        },
        ClassItem::Range(s, e) => if s == '.' && e == '/' {
            seq![ClassItem::Char('.')]
        } else if e == '/' {
            seq![ClassItem::Range(s, '.')]
        } else if s == '/' && e == '0' {
            seq![ClassItem::Char('0')]
        } else if s == '/' {
            seq![ClassItem::Range('0', e)]
        } else if (s as int) > ('/' as int) || (e as int) < ('/' as int) {
            seq![it]
        } else {
            seq![
                if s == '.' {
                    ClassItem::Char('.')
                } else {
                    ClassItem::Range(s, '.')
                },
                if e == '0' {
                    ClassItem::Char('0')
                } else {
                    ClassItem::Range('0', e)
                },
            ]
        },
    }
}

/// The items of a class with the slash taken out of each.
pub open spec fn exclude_slash(items: Seq<ClassItem>) -> Seq<ClassItem>
    decreases items.len(),
{
    if items.len() == 0 {
        Seq::empty()
    } else {
        exclude_slash(items.drop_last()) + exclude_slash_item(items.last())
    }
}

/// The items of a negated class with a slash added unless one already matches it.
pub open spec fn include_slash(items: Seq<ClassItem>) -> Seq<ClassItem> {
    if items_cover(items, '/') {
        items
    } else {
        items.push(ClassItem::Char('/'))
    }
}

/// A class made unable to match a slash: a plain class loses it, a negated
/// class gains it.
pub open spec fn slash_adjusted(acc: ClassSpec) -> ClassSpec {
    if acc.negated {
        ClassSpec { negated: true, items: include_slash(acc.items) }
    } else {
        ClassSpec { negated: false, items: exclude_slash(acc.items) }
    }
}

/// The single characters of a class other than the dash.
pub open spec fn class_chars(items: Seq<ClassItem>) -> Set<char> {
    Set::new(|c: char| c != '-' && items.contains(ClassItem::Char(c)))
}

/// The ranges of a class.
pub open spec fn class_ranges(items: Seq<ClassItem>) -> Set<(char, char)> {
    Set::new(|r: (char, char)| items.contains(ClassItem::Range(r.0, r.1)))
}

/// A range as it stands in a regular expression class.
pub open spec fn range_text(r: (char, char)) -> Seq<char> {
    escape_in_class_text(r.0) + seq!['-'] + escape_in_class_text(r.1)
}

/// The regular expression class for a glob class: the slash adjusted, the single
/// characters sorted and without repeats, then the ranges likewise, and a dash
/// last if the class holds one.
pub open spec fn class_text(acc: ClassSpec) -> Seq<char> {
    let a = slash_adjusted(acc);
    let cs = sorted_members(class_chars(a.items), char_order());
    let rs = sorted_members(class_ranges(a.items), pair_order());
    seq!['['] + (if a.negated {
        seq!['^']
    } else {
        Seq::<char>::empty()
    }) + concat_all(cs.map_values(|c: char| escape_in_class_text(c))) + concat_all(
        rs.map_values(|r: (char, char)| range_text(r)),
    ) + (if a.items.contains(ClassItem::Char('-')) {
        seq!['-']
    } else {
        Seq::<char>::empty()
    }) + seq![']']
}

/// Exclude the slash character from classes that would include it.
fn handle_slash_exclude(acc: ClassAccumulator) -> (res: ClassAccumulator)
    requires
        !acc.negated,
    ensures
        res@ == slash_adjusted(acc@),
{
    let mut items: Vec<ClassItem> = Vec::new();
    let mut i: usize = 0;
    while i < acc.items.len()
        invariant
            0 <= i <= acc.items.len(),
            items@ == exclude_slash(acc.items@.take(i as int)),
        decreases acc.items.len() - i,
    {
        let it = acc.items[i];
        let ghost prev = items@;
        match it {
            ClassItem::Char(c) => {
                if c != '/' {
                    items.push(it);
                }
            },
            ClassItem::Range(s, e) => {
                if s == '.' && e == '/' {
                    items.push(ClassItem::Char('.'));
                } else if e == '/' {
                    items.push(ClassItem::Range(s, '.'));
                } else if s == '/' && e == '0' {
                    items.push(ClassItem::Char('0'));
                } else if s == '/' {
                    items.push(ClassItem::Range('0', e));
                } else if (s > '/') || (e < '/') {
                    items.push(it);
                } else {
                    if s == '.' {
                        items.push(ClassItem::Char('.'));
                    } else {
                        items.push(ClassItem::Range(s, '.'));
                    }
                    if e == '0' {
                        items.push(ClassItem::Char('0'));
                    } else {
                        items.push(ClassItem::Range('0', e));
                    }
                }
            },
        }
        assert(items@ =~= prev + exclude_slash_item(it));
        assert(acc.items@.take(i + 1).drop_last() =~= acc.items@.take(i as int));
        i = i + 1;
    }
    assert(acc.items@.take(acc.items.len() as int) =~= acc.items@);
    ClassAccumulator { negated: false, items }
}

/// Make sure a negated character class will match a slash.
fn handle_slash_include(acc: ClassAccumulator) -> (res: ClassAccumulator)
    requires
        acc.negated,
    ensures
        res@ == slash_adjusted(acc@),
{
    let mut acc = acc;
    let mut slash_found = false;
    let mut i: usize = 0;
    while i < acc.items.len()
        invariant
            0 <= i <= acc.items.len(),
            slash_found <==> exists|k: int| 0 <= k < i && item_covers(#[trigger] acc.items@[k], '/'),
        decreases acc.items.len() - i,
    {
        let covers = match acc.items[i] {
            ClassItem::Char(c) => c == '/',
            ClassItem::Range(s, e) => s <= '/' && e >= '/',
        };
        if covers {
            slash_found = true;
        }
        i = i + 1;
    }
    if !slash_found {
        acc.items.push(ClassItem::Char('/'));
    }
    acc
}

/// Character classes never match a slash when used in filenames: a negated
/// class will include the slash and a plain one will not.
fn handle_slash(acc: ClassAccumulator) -> (res: ClassAccumulator)
    ensures
        res@ == slash_adjusted(acc@),
{
    if acc.negated {
        handle_slash_include(acc)
    } else {
        handle_slash_exclude(acc)
    }
}

/// Convert a glob character class to a regular expression one.
fn close_class(glob_acc: ClassAccumulator) -> (res: Vec<char>)
    ensures
        res@ == class_text(glob_acc@),
{
    let ghost a0 = glob_acc@;
    let acc = handle_slash(glob_acc);
    let mut chars: Vec<char> = Vec::new();
    let mut ranges: Vec<(char, char)> = Vec::new();
    let mut has_dash = false;
    let mut i: usize = 0;
    while i < acc.items.len()
        invariant
            acc@ == slash_adjusted(a0),
            0 <= i <= acc.items.len(),
            strictly_sorted(chars@, char_order()),
            strictly_sorted(ranges@, pair_order()),
            chars@.to_set() == class_chars(acc.items@.take(i as int)),
            ranges@.to_set() == class_ranges(acc.items@.take(i as int)),
            has_dash == acc.items@.take(i as int).contains(ClassItem::Char('-')),
        decreases acc.items.len() - i,
    {
        let ghost pre = acc.items@.take(i as int);
        let ghost post = acc.items@.take(i + 1);
        assert(post =~= pre.push(acc.items@[i as int]));
        match acc.items[i] {
            ClassItem::Char(c) => {
                if c == '-' {
                    has_dash = true;
                } else {
                    insert_char_sorted(&mut chars, c);
                }
            },
            ClassItem::Range(s, e) => {
                insert_pair_sorted(&mut ranges, (s, e));
            },
        }
        proof {
            lemma_push_contains(pre, acc.items@[i as int], ClassItem::Char('-'));
            assert forall|c: char| #[trigger] chars@.to_set().contains(c) == class_chars(post).contains(c) by {
                lemma_push_contains(pre, acc.items@[i as int], ClassItem::Char(c));
            }
            assert forall|r: (char, char)| #[trigger] ranges@.to_set().contains(r) == class_ranges(post).contains(r) by {
                lemma_push_contains(pre, acc.items@[i as int], ClassItem::Range(r.0, r.1));
            }
        }
        assert(chars@.to_set() =~= class_chars(post));
        assert(ranges@.to_set() =~= class_ranges(post));
        i = i + 1;
    }
    assert(acc.items@.take(acc.items.len() as int) =~= acc.items@);
    proof {
        lemma_char_lt_total();
        lemma_pair_lt_total();
        lemma_is_sorted_members(chars@, class_chars(acc.items@), char_order());
        lemma_is_sorted_members(ranges@, class_ranges(acc.items@), pair_order());
    }
    let mut result: Vec<char> = Vec::new();
    result.push('[');
    if acc.negated {
        result.push('^');
    }
    let ghost head = result@;
    let mut k: usize = 0;
    while k < chars.len()
        invariant
            0 <= k <= chars.len(),
            result@ == head + concat_all(
                chars@.take(k as int).map_values(|c: char| escape_in_class_text(c)),
            ),
        decreases chars.len() - k,
    {
        let piece = escape_in_class(chars[k]);
        append_chars(&mut result, &piece);
        assert(chars@.take(k + 1).map_values(|c: char| escape_in_class_text(c)).drop_last()
            =~= chars@.take(k as int).map_values(|c: char| escape_in_class_text(c)));
        k = k + 1;
    }
    assert(chars@.take(chars.len() as int) =~= chars@);
    let ghost head2 = result@;
    let mut m: usize = 0;
    while m < ranges.len()
        invariant
            0 <= m <= ranges.len(),
            result@ == head2 + concat_all(
                ranges@.take(m as int).map_values(|r: (char, char)| range_text(r)),
            ),
        decreases ranges.len() - m,
    {
        let r = ranges[m];
        let mut piece = escape_in_class(r.0);
        piece.push('-');
        let tail = escape_in_class(r.1);
        append_chars(&mut piece, &tail);
        append_chars(&mut result, &piece);
        assert(ranges@.take(m + 1).map_values(|r: (char, char)| range_text(r)).drop_last()
            =~= ranges@.take(m as int).map_values(|r: (char, char)| range_text(r)));
        m = m + 1;
    }
    assert(ranges@.take(ranges.len() as int) =~= ranges@);
    if has_dash {
        result.push('-');
    }
    result.push(']');
    result
}

// ---------------------------------------------------------------- alternations

/// A text with every regex-special character escaped.
pub open spec fn escape_all(t: Seq<char>) -> Seq<char> {
    concat_all(t.map_values(|c: char| escape_text(c)))
}

/// Texts joined by `|`.
pub open spec fn join_bar(s: Seq<Seq<char>>) -> Seq<char>
    decreases s.len(),
{
    if s.len() == 0 {
        Seq::empty()
    } else if s.len() == 1 {
        s[0]
    } else {
        join_bar(s.drop_last()) + seq!['|'] + s.last()
    }
}

/// The regular expression group for a glob alternation: the alternatives
/// escaped, sorted, without repeats and joined by `|`.
pub open spec fn alternate_text(gathered: Seq<Seq<char>>) -> Seq<char> {
    let items = sorted_members(
        gathered.map_values(|t: Seq<char>| escape_all(t)).to_set(),
        text_order(),
    );
    seq!['('] + join_bar(items) + seq![')']
}

/// Escapes every character of `t`.
fn escape_chars(t: &Vec<char>) -> (res: Vec<char>)
    ensures
        res@ == escape_all(t@),
{
    let mut out: Vec<char> = Vec::new();
    let mut i: usize = 0;
    while i < t.len()
        invariant
            0 <= i <= t.len(),
            out@ == concat_all(t@.take(i as int).map_values(|c: char| escape_text(c))),
        decreases t.len() - i,
    {
        let piece = escape(t[i]);
        append_chars(&mut out, &piece);
        assert(t@.take(i + 1).map_values(|c: char| escape_text(c)).drop_last() =~= t@.take(
            i as int,
        ).map_values(|c: char| escape_text(c)));
        i = i + 1;
    }
    assert(t@.take(t.len() as int) =~= t@);
    out
}

/// Convert a glob alternatives list to a regular expression pattern.
fn close_alternate(gathered: Vec<Vec<char>>) -> (res: Vec<char>)
    ensures
        res@ == alternate_text(gathered@.map_values(|t: Vec<char>| t@)),
{
    let ghost g = gathered@.map_values(|t: Vec<char>| t@);
    let ghost esc = g.map_values(|t: Seq<char>| escape_all(t));
    let mut items: Vec<Vec<char>> = Vec::new();
    let mut i: usize = 0;
    while i < gathered.len()
        invariant
            0 <= i <= gathered.len(),
            g == gathered@.map_values(|t: Vec<char>| t@),
            esc == g.map_values(|t: Seq<char>| escape_all(t)),
            strictly_sorted(items@.map_values(|t: Vec<char>| t@), text_order()),
            items@.map_values(|t: Vec<char>| t@).to_set() == esc.take(i as int).to_set(),
        decreases gathered.len() - i,
    {
        let e = escape_chars(&gathered[i]);
        proof {
            assert(esc.take(i + 1) =~= esc.take(i as int).push(esc[i as int]));
            assert forall|t: Seq<char>| #[trigger] esc.take(i + 1).to_set().contains(t)
                == esc.take(i as int).to_set().insert(esc[i as int]).contains(t) by {
                lemma_push_contains(esc.take(i as int), esc[i as int], t);
            }
        }
        insert_text_sorted(&mut items, e);
        assert(items@.map_values(|t: Vec<char>| t@).to_set() =~= esc.take(i + 1).to_set());
        i = i + 1;
    }
    assert(esc.take(gathered.len() as int) =~= esc);
    proof {
        lemma_text_lt_total();
        lemma_is_sorted_members(items@.map_values(|t: Vec<char>| t@), esc.to_set(), text_order());
    }
    let ghost sorted = items@.map_values(|t: Vec<char>| t@);
    let mut result: Vec<char> = Vec::new();
    result.push('(');
    let mut k: usize = 0;
    while k < items.len()
        invariant
            0 <= k <= items.len(),
            sorted == items@.map_values(|t: Vec<char>| t@),
            result@ == seq!['('] + join_bar(sorted.take(k as int)),
        decreases items.len() - k,
    {
        if k > 0 {
            result.push('|');
        }
        append_chars(&mut result, &items[k]);
        assert(sorted.take(k + 1).drop_last() =~= sorted.take(k as int));
        assert(sorted.take(k + 1).last() == items@[k as int]@);
        if k == 0 {
            assert(seq!['('] + join_bar(sorted.take(1)) =~= result@);
        }
        k = k + 1;
    }
    assert(sorted.take(items.len() as int) =~= sorted);
    result.push(')');
    result
}

// ---------------------------------------------------------------- errors

/// Error type for glob pattern operations.
#[derive(Debug)]
pub enum Error {
    /// Bare escape at the end of the pattern
    BareEscape,
    /// An unclosed character class
    UnclosedClass,
    /// A feature that is not yet implemented
    NotImplemented(String),
    /// A range where the start character is after the end one
    ReversedRange(char, char),
    /// A dash after a range in a character class
    RangeAfterRange(char, char),
    /// An unclosed alternation
    UnclosedAlternation,
    /// An invalid regular expression was generated from the pattern
    InvalidRegex(String, String),
}

/// The mathematical content of an [`Error`].
pub enum GlobError {
    BareEscape,
    UnclosedClass,
    NotImplemented(Seq<char>),
    ReversedRange(char, char),
    RangeAfterRange(char, char),
    UnclosedAlternation,
    InvalidRegex(Seq<char>, Seq<char>),
}

impl View for Error {
    type V = GlobError;

    open spec fn view(&self) -> GlobError {
        match self {
            Error::BareEscape => GlobError::BareEscape,
            Error::UnclosedClass => GlobError::UnclosedClass,
            Error::NotImplemented(s) => GlobError::NotImplemented(s@),
            Error::ReversedRange(a, b) => GlobError::ReversedRange(*a, *b),
            Error::RangeAfterRange(a, b) => GlobError::RangeAfterRange(*a, *b),
            Error::UnclosedAlternation => GlobError::UnclosedAlternation,
            Error::InvalidRegex(p, m) => GlobError::InvalidRegex(p@, m@),
        }
    }
}

/// The message of a glob error.
pub open spec fn glob_error_message(e: GlobError) -> Seq<char> {
    match e {
        GlobError::BareEscape => "Bare escape at the end of the pattern"@,
        GlobError::UnclosedClass => "Unclosed character class"@,
        GlobError::NotImplemented(s) => "Not implemented: "@ + s,
        GlobError::ReversedRange(a, b) => "Reversed range: "@ + seq![a] + " > "@ + seq![b],
        GlobError::RangeAfterRange(a, b) => "Range after range: "@ + seq![a] + "-"@ + seq![b],
        GlobError::UnclosedAlternation => "Unclosed alternation"@,
        GlobError::InvalidRegex(p, m) => "Invalid regex pattern '"@ + p + "': "@ + m,
    }
}

impl Error {
    /// The human-readable message of the error.
    pub fn to_string(&self) -> (res: String)
        ensures
            res@ == glob_error_message(self@),
    {
        let mut out: Vec<char> = Vec::new();
        match self {
            Error::BareEscape => append_chars(&mut out, &str_chars("Bare escape at the end of the pattern")),
            Error::UnclosedClass => append_chars(&mut out, &str_chars("Unclosed character class")),
            Error::NotImplemented(s) => {
                append_chars(&mut out, &str_chars("Not implemented: "));
                append_chars(&mut out, &str_chars(s.as_str()));
            },
            Error::ReversedRange(a, b) => {
                append_chars(&mut out, &str_chars("Reversed range: "));
                out.push(*a);
                append_chars(&mut out, &str_chars(" > "));
                out.push(*b);
            },
            Error::RangeAfterRange(a, b) => {
                append_chars(&mut out, &str_chars("Range after range: "));
                out.push(*a);
                append_chars(&mut out, &str_chars("-"));
                out.push(*b);
            },
            Error::UnclosedAlternation => append_chars(&mut out, &str_chars("Unclosed alternation")),
            Error::InvalidRegex(p, m) => {
                append_chars(&mut out, &str_chars("Invalid regex pattern '"));
                append_chars(&mut out, &str_chars(p.as_str()));
                append_chars(&mut out, &str_chars("': "));
                append_chars(&mut out, &str_chars(m.as_str()));
            },
        }
        assert(out@ =~= glob_error_message(self@));
        string_from_chars(&out)
    }
}

/// What `Debug` for `char` writes for a character (quoted and escaped).
pub uninterp spec fn char_debug(c: char) -> Seq<char>;

/// The debug form of a class item: `Char('a')` or `Range('a', 'z')`.
pub open spec fn item_debug(item: ClassItem) -> Seq<char> {
    match item {
        ClassItem::Char(c) => "Char("@ + char_debug(c) + ")"@,
        ClassItem::Range(a, b) => "Range("@ + char_debug(a) + ", "@ + char_debug(b) + ")"@,
    }
}

/// The debug forms of class items, separated by `, `.
pub open spec fn items_debug(items: Seq<ClassItem>) -> Seq<char>
    decreases items.len(),
{
    if items.len() == 0 {
        Seq::empty()
    } else if items.len() == 1 {
        item_debug(items[0])
    } else {
        items_debug(items.drop_last()) + ", "@ + item_debug(items.last())
    }
}

/// The debug form of a class accumulator, as its derived `Debug` writes it:
/// `ClassAccumulator { negated: false, items: [Char('a'), Range('0', '9')] }`.
pub open spec fn accumulator_debug(acc: ClassSpec) -> Seq<char> {
    "ClassAccumulator { negated: "@ + (if acc.negated {
        "true"@
    } else {
        "false"@
    }) + ", items: ["@ + items_debug(acc.items) + "] }"@
}

/// The message for an escape at the end of a class range, which the
/// conversion does not handle: it shows the class so far and the range's
/// start in their debug forms.
pub open spec fn class_range_escape_message(acc: ClassSpec, start: char) -> Seq<char> {
    "FIXME: handle class range end escape with "@ + accumulator_debug(acc) + " start "@
        + char_debug(start)
}

/// Appends the debug form of a character.
fn push_char_debug(out: &mut Vec<char>, c: char)
    ensures
        final(out)@ == old(out)@ + char_debug(c),
{
    let text = debug_char(c);
    append_chars(out, &str_chars(text.as_str()));
}

/// Appends the debug form of a class item.
fn push_item_debug(out: &mut Vec<char>, item: ClassItem)
    ensures
        final(out)@ == old(out)@ + item_debug(item),
{
    let ghost start = out@;
    match item {
        ClassItem::Char(c) => {
            append_chars(out, &str_chars("Char("));
            push_char_debug(out, c);
            append_chars(out, &str_chars(")"));
        },
        ClassItem::Range(a, b) => {
            append_chars(out, &str_chars("Range("));
            push_char_debug(out, a);
            append_chars(out, &str_chars(", "));
            push_char_debug(out, b);
            append_chars(out, &str_chars(")"));
        },
    }
    assert(out@ =~= start + item_debug(item));
}

/// Appends the debug form of a class accumulator.
fn push_accumulator_debug(out: &mut Vec<char>, acc: &ClassAccumulator)
    ensures
        final(out)@ == old(out)@ + accumulator_debug(acc@),
{
    let ghost start = out@;
    append_chars(out, &str_chars("ClassAccumulator { negated: "));
    if acc.negated {
        append_chars(out, &str_chars("true"));
    } else {
        append_chars(out, &str_chars("false"));
    }
    append_chars(out, &str_chars(", items: ["));
    let ghost head = out@;
    let mut i: usize = 0;
    while i < acc.items.len()
        invariant
            i <= acc.items.len(),
            out@ == head + items_debug(acc.items@.take(i as int)),
        decreases acc.items.len() - i,
    {
        if i > 0 {
            append_chars(out, &str_chars(", "));
        }
        push_item_debug(out, acc.items[i]);
        proof {
            let t = acc.items@.take(i + 1);
            assert(t.drop_last() =~= acc.items@.take(i as int));
            assert(t.last() == acc.items@[i as int]);
            if i == 0 {
                assert(t.len() == 1);
                assert(t[0] == acc.items@[0]);
                assert(acc.items@.take(0) =~= Seq::<ClassItem>::empty());
            }
        }
        i = i + 1;
    }
    append_chars(out, &str_chars("] }"));
    proof {
        assert(acc.items@.take(acc.items.len() as int) =~= acc.items@);
        assert(out@ =~= start + accumulator_debug(acc@));
    }
}

/// `format!("{:?}", c)`: the debug form of a character. The contract names
/// the text as a function of the character; it does not spell it out.
#[verifier::external_body]
fn debug_char(c: char) -> (res: String)
    ensures
        res@ == char_debug(c),
{
    format!("{c:?}")
}

/// The message for an escape at the end of a class range.
fn class_range_escape_text(acc: &ClassAccumulator, start: char) -> (res: String)
    ensures
        res@ == class_range_escape_message(acc@, start),
{
    let mut out = str_chars("FIXME: handle class range end escape with ");
    push_accumulator_debug(&mut out, acc);
    append_chars(&mut out, &str_chars(" start "));
    push_char_debug(&mut out, start);
    proof {
        assert(out@ =~= class_range_escape_message(acc@, start));
    }
    string_from_chars(&out)
}

// ---------------------------------------------------------------- the parser

/// The current state of the glob pattern parser.
enum State {
    /// The very start of the pattern.
    Start,
    /// The end of the pattern, nothing more to do.
    End,
    /// The next item can be a literal character.
    Literal,
    /// The next item will signify a character escape.
    Escape,
    /// The next item will be the first character of a class, possibly `!`.
    ClassStart,
    /// The next item will either be a character or a range, both within a class.
    Class(ClassAccumulator),
    /// A dash followed a character; the next one ends the range.
    ClassRange(ClassAccumulator, char),
    /// There was a dash following a character range.
    ClassRangeDash(ClassAccumulator),
    /// The next item will signify a character escape within a character class.
    ClassEscape(ClassAccumulator),
    /// We are building a collection of alternatives.
    Alternate(Vec<char>, Vec<Vec<char>>),
    /// The next item will signify a character escape within a collection of alternatives.
    AlternateEscape(Vec<char>, Vec<Vec<char>>),
}

/// The mathematical content of a parser state.
pub enum GlobState {
    Start,
    End,
    Literal,
    Escape,
    ClassStart,
    Class(ClassSpec),
    ClassRange(ClassSpec, char),
    ClassRangeDash(ClassSpec),
    ClassEscape(ClassSpec),
    Alternate(Seq<char>, Seq<Seq<char>>),
    AlternateEscape(Seq<char>, Seq<Seq<char>>),
}

/// The contents of a list of texts.
pub open spec fn texts_view(v: Seq<Vec<char>>) -> Seq<Seq<char>> {
    v.map_values(|t: Vec<char>| t@)
}

impl View for State {
    type V = GlobState;

    closed spec fn view(&self) -> GlobState {
        match self {
            State::Start => GlobState::Start,
            State::End => GlobState::End,
            State::Literal => GlobState::Literal,
            State::Escape => GlobState::Escape,
            State::ClassStart => GlobState::ClassStart,
            State::Class(acc) => GlobState::Class(acc@),
            State::ClassRange(acc, c) => GlobState::ClassRange(acc@, *c),
            State::ClassRangeDash(acc) => GlobState::ClassRangeDash(acc@),
            State::ClassEscape(acc) => GlobState::ClassEscape(acc@),
            State::Alternate(cur, g) => GlobState::Alternate(cur@, texts_view(g@)),
            State::AlternateEscape(cur, g) => GlobState::AlternateEscape(cur@, texts_view(g@)),
        }
    }
}

/// The states the parser can be in: after a dash that follows a range, the
/// range is the last item of the class.
pub open spec fn glob_state_wf(st: GlobState) -> bool {
    match st {
        GlobState::ClassRangeDash(acc) => acc.items.len() > 0 && acc.items.last() is Range,
        _ => true,
    }
}

/// One step of the parser: finished, failed, or a piece of output (possibly
/// none), the next state and the rest of the pattern.
pub enum GlobStep {
    Finished,
    Emit(Option<Seq<char>>, GlobState, Seq<char>),
    Fail(GlobError),
}

/// A class with one more item.
pub open spec fn class_push(acc: ClassSpec, it: ClassItem) -> ClassSpec {
    ClassSpec { negated: acc.negated, items: acc.items.push(it) }
}

/// A class with its last item taken out.
pub open spec fn class_pop(acc: ClassSpec) -> ClassSpec {
    ClassSpec { negated: acc.negated, items: acc.items.drop_last() }
}

/// The first step from a state on the rest of the pattern.
pub open spec fn glob_step(st: GlobState, rest: Seq<char>) -> GlobStep {
    let c = rest[0];
    let r = rest.drop_first();
    match st {
        GlobState::Start => GlobStep::Emit(Some(seq!['^']), GlobState::Literal, rest),
        GlobState::End => GlobStep::Finished,
        GlobState::Literal => if rest.len() == 0 {
            GlobStep::Emit(Some(seq!['$']), GlobState::End, rest)
        } else if c == '\\' {
            GlobStep::Emit(None, GlobState::Escape, r)
        } else if c == '[' {
            GlobStep::Emit(None, GlobState::ClassStart, r)
        } else if c == '{' {
            GlobStep::Emit(None, GlobState::Alternate(Seq::empty(), Seq::empty()), r)
        } else if c == '?' {
            GlobStep::Emit(Some(seq!['[', '^', '/', ']']), GlobState::Literal, r)
        } else if c == '*' {
            GlobStep::Emit(Some(seq!['.', '*']), GlobState::Literal, r)
        } else if c == ']' || c == '}' || c == '.' {
            GlobStep::Emit(Some(seq!['\\', c]), GlobState::Literal, r)
        } else {
            GlobStep::Emit(Some(seq![c]), GlobState::Literal, r)
        },
        GlobState::Escape => if rest.len() == 0 {
            GlobStep::Fail(GlobError::BareEscape)
        } else {
            GlobStep::Emit(Some(escape_text(letter_escape(c))), GlobState::Literal, r)
        },
        GlobState::ClassStart => if rest.len() == 0 {
            GlobStep::Fail(GlobError::UnclosedClass)
        } else if c == '!' {
            GlobStep::Emit(None, GlobState::Class(ClassSpec { negated: true, items: Seq::empty() }), r)
        } else if c == '\\' {
            GlobStep::Emit(
                None,
                GlobState::ClassEscape(ClassSpec { negated: false, items: Seq::empty() }),
                r,
            )
        } else {
            GlobStep::Emit(
                None,
                GlobState::Class(ClassSpec { negated: false, items: seq![ClassItem::Char(c)] }),
                r,
            )
        },
        GlobState::Class(acc) => if rest.len() == 0 {
            GlobStep::Fail(GlobError::UnclosedClass)
        } else if c == ']' {
            if acc.items.len() == 0 {
                GlobStep::Emit(None, GlobState::Class(class_push(acc, ClassItem::Char(']'))), r)
            } else {
                GlobStep::Emit(Some(class_text(acc)), GlobState::Literal, r)
            }
        } else if c == '-' {
            if acc.items.len() == 0 {
                GlobStep::Emit(None, GlobState::Class(class_push(acc, ClassItem::Char('-'))), r)
            } else {
                match acc.items.last() {
                    ClassItem::Range(_, _) => GlobStep::Emit(
                        None,
                        GlobState::ClassRangeDash(acc),
                        r,
                    ),
                    ClassItem::Char(start) => GlobStep::Emit(
                        None,
                        GlobState::ClassRange(class_pop(acc), start),
                        r,
                    ),
                }
            }
        } else if c == '\\' {
            GlobStep::Emit(None, GlobState::ClassEscape(acc), r)
        } else {
            GlobStep::Emit(None, GlobState::Class(class_push(acc, ClassItem::Char(c))), r)
        },
        GlobState::ClassEscape(acc) => if rest.len() == 0 {
            GlobStep::Fail(GlobError::UnclosedClass)
        } else {
            GlobStep::Emit(
                None,
                GlobState::Class(class_push(acc, ClassItem::Char(letter_escape(c)))),
                r,
            )
        },
        GlobState::ClassRange(acc, start) => if rest.len() == 0 {
            GlobStep::Fail(GlobError::UnclosedClass)
        } else if c == '\\' {
            GlobStep::Fail(GlobError::NotImplemented(class_range_escape_message(acc, start)))
        } else if c == ']' {
            GlobStep::Emit(
                Some(
                    class_text(class_push(class_push(acc, ClassItem::Char(start)), ClassItem::Char('-'))),
                ),
                GlobState::Literal,
                r,
            )
        } else if (start as int) > (c as int) {
            GlobStep::Fail(GlobError::ReversedRange(start, c))
        } else if start == c {
            GlobStep::Emit(None, GlobState::Class(class_push(acc, ClassItem::Char(start))), r)
        } else {
            GlobStep::Emit(None, GlobState::Class(class_push(acc, ClassItem::Range(start, c))), r)
        },
        GlobState::ClassRangeDash(acc) => if rest.len() == 0 {
            GlobStep::Fail(GlobError::UnclosedClass)
        } else if c == ']' {
            GlobStep::Emit(Some(class_text(class_push(acc, ClassItem::Char('-')))), GlobState::Literal, r)
        } else {
            match acc.items.last() {
                ClassItem::Range(s, e) => GlobStep::Fail(GlobError::RangeAfterRange(s, e)),
                ClassItem::Char(_) => GlobStep::Fail(GlobError::UnclosedClass),
            }
        },
        GlobState::Alternate(cur, g) => if rest.len() == 0 {
            GlobStep::Fail(GlobError::UnclosedAlternation)
        } else if c == ',' {
            GlobStep::Emit(None, GlobState::Alternate(Seq::empty(), g.push(cur)), r)
        } else if c == '}' {
            if cur.len() == 0 && g.len() == 0 {
                GlobStep::Emit(Some(seq!['\\', '{', '\\', '}']), GlobState::Literal, r)
            } else {
                GlobStep::Emit(Some(alternate_text(g.push(cur))), GlobState::Literal, r)
            }
        } else if c == '\\' {
            GlobStep::Emit(None, GlobState::AlternateEscape(cur, g), r)
        } else if c == '[' {
            GlobStep::Fail(GlobError::NotImplemented("FIXME: alternate character class"@))
        } else {
            GlobStep::Emit(None, GlobState::Alternate(cur.push(c), g), r)
        },
        GlobState::AlternateEscape(cur, g) => if rest.len() == 0 {
            GlobStep::Fail(GlobError::UnclosedAlternation)
        } else {
            GlobStep::Emit(None, GlobState::Alternate(cur.push(letter_escape(c)), g), r)
        },
    }
}

/// The states that move on without reading a character come first in this rank.
pub open spec fn state_rank(st: GlobState) -> int {
    match st {
        GlobState::Start => 2,
        GlobState::Literal => 1,
        _ => 0,
    }
}

/// The text of an optional piece of output.
pub open spec fn piece_text(p: Option<Seq<char>>) -> Seq<char> {
    match p {
        Some(t) => t,
        None => Seq::empty(),
    }
}

/// `out` followed by the outcome of the rest of a run.
pub open spec fn after(out: Seq<char>, r: Result<Seq<char>, GlobError>) -> Result<Seq<char>, GlobError> {
    match r {
        Ok(o) => Ok(out + o),
        Err(e) => Err(e),
    }
}

/// The output of the parser from a state on the rest of the pattern: the
/// pieces of every step concatenated, or the first error.
pub open spec fn glob_run(st: GlobState, rest: Seq<char>) -> Result<Seq<char>, GlobError>
    decreases rest.len(), state_rank(st),
{
    match glob_step(st, rest) {
        GlobStep::Finished => Ok(Seq::empty()),
        GlobStep::Fail(e) => Err(e),
        GlobStep::Emit(piece, st2, rest2) => if rest2.len() < rest.len() || (rest2.len()
            == rest.len() && state_rank(st2) < state_rank(st)) {
            after(piece_text(piece), glob_run(st2, rest2))
        } else {
            Err(GlobError::UnclosedClass)
        },
    }
}

/// The regular expression that a glob pattern stands for, or the error
/// that stops the conversion.
pub open spec fn regex_of_glob(pattern: Seq<char>) -> Result<Seq<char>, GlobError> {
    glob_run(GlobState::Start, pattern)
}

/// Every step that emits either reads a character or moves to a lower rank.
pub proof fn lemma_step_progress(st: GlobState, rest: Seq<char>)
    ensures
        glob_step(st, rest) matches GlobStep::Emit(_, st2, rest2) ==> (rest2.len() < rest.len() || (
        rest2.len() == rest.len() && state_rank(st2) < state_rank(st))),
        glob_step(st, rest) matches GlobStep::Emit(_, st2, rest2) ==> (rest2 == rest || rest2
            == rest.drop_first()),
{
}

/// Iterate over a glob pattern's characters, build up a regular expression.
struct GlobIterator {
    /// The glob pattern's characters.
    pattern: Vec<char>,
    /// How many of them have been read.
    pos: usize,
    /// The current state of the glob pattern parser.
    state: State,
}

/// Either a piece of the regular expression or an error.
type StringResult = Result<Option<Vec<char>>, Error>;

/// The text of an optional piece.
pub open spec fn piece_view(p: Option<Vec<char>>) -> Option<Seq<char>> {
    match p {
        Some(t) => Some(t@),
        None => None,
    }
}

impl GlobIterator {
    /// The characters not yet read.
    closed spec fn rest(&self) -> Seq<char> {
        self.pattern@.skip(self.pos as int)
    }

    closed spec fn wf(&self) -> bool {
        self.pos <= self.pattern.len()
    }

    /// The iterator after a step that emitted, or the error of a step that failed.
    closed spec fn step_done(step: GlobStep, old_pattern: Seq<char>, it: GlobIterator, res: StringResult) -> bool {
        match step {
            GlobStep::Emit(p, st2, r2) => {
                &&& res matches Ok(o) && piece_view(o) == p
                &&& it.state@ == st2
                &&& it.rest() == r2
                &&& it.wf()
                &&& it.pattern@ == old_pattern
            },
            GlobStep::Fail(e) => res matches Err(err) && err@ == e,
            GlobStep::Finished => false,
        }
    }

    /// Reads the next character of the pattern.
    fn next_char(&mut self) -> (res: Option<char>)
        requires
            old(self).wf(),
        ensures
            final(self).wf(),
            final(self).pattern@ == old(self).pattern@,
            old(self).rest().len() == 0 ==> res is None && final(self).rest() == old(self).rest(),
            old(self).rest().len() > 0 ==> res == Some(old(self).rest()[0]) && final(self).rest()
                == old(self).rest().drop_first(),
    {
        if self.pos < self.pattern.len() {
            let c = self.pattern[self.pos];
            self.pos = self.pos + 1;
            assert(self.rest() =~= old(self).rest().drop_first());
            Some(c)
        } else {
            None
        }
    }

    /// Output a "^" at the very start of the pattern.
    fn handle_start(&mut self) -> (res: Vec<char>)
        requires
            old(self).wf(),
        ensures
            Self::step_done(
                glob_step(GlobState::Start, old(self).rest()),
                old(self).pattern@,
                *final(self),
                Ok(Some(res)),
            ),
    {
        self.state = State::Literal;
        let mut out: Vec<char> = Vec::new();
        out.push('^');
        assert(out@ =~= seq!['^']);
        out
    }

    /// Handle the next character when expecting a literal one.
    fn handle_literal(&mut self) -> (res: Option<Vec<char>>)
        requires
            old(self).wf(),
        ensures
            Self::step_done(
                glob_step(GlobState::Literal, old(self).rest()),
                old(self).pattern@,
                *final(self),
                Ok(res),
            ),
    {
        match self.next_char() {
            None => {
                self.state = State::End;
                let mut out: Vec<char> = Vec::new();
                out.push('$');
                assert(out@ =~= seq!['$']);
                Some(out)
            },
            Some(chr) => {
                if chr == '\\' {
                    self.state = State::Escape;
                    None
                } else if chr == '[' {
                    self.state = State::ClassStart;
                    None
                } else if chr == '{' {
                    let g: Vec<Vec<char>> = Vec::new();
                    assert(texts_view(g@) =~= Seq::<Seq<char>>::empty());
                    self.state = State::Alternate(Vec::new(), g);
                    None
                } else if chr == '?' {
                    self.state = State::Literal;
                    let mut out: Vec<char> = Vec::new();
                    out.push('[');
                    out.push('^');
                    out.push('/');
                    out.push(']');
                    assert(out@ =~= seq!['[', '^', '/', ']']);
                    Some(out)
                } else if chr == '*' {
                    self.state = State::Literal;
                    let mut out: Vec<char> = Vec::new();
                    out.push('.');
                    out.push('*');
                    assert(out@ =~= seq!['.', '*']);
                    Some(out)
                } else if chr == ']' || chr == '}' || chr == '.' {
                    self.state = State::Literal;
                    let mut out: Vec<char> = Vec::new();
                    out.push('\\');
                    out.push(chr);
                    assert(out@ =~= seq!['\\', chr]);
                    Some(out)
                } else {
                    self.state = State::Literal;
                    let mut out: Vec<char> = Vec::new();
                    out.push(chr);
                    assert(out@ =~= seq![chr]);
                    Some(out)
                }
            },
        }
    }

    /// Handle an escaped character.
    fn handle_escape(&mut self) -> (res: StringResult)
        requires
            old(self).wf(),
        ensures
            Self::step_done(glob_step(GlobState::Escape, old(self).rest()), old(self).pattern@, *final(self), res),
    {
        match self.next_char() {
            Some(chr) => {
                self.state = State::Literal;
                Ok(Some(escape_special(chr)))
            },
            None => Err(Error::BareEscape),
        }
    }

    /// Handle the first character in a character class specification.
    fn handle_class_start(&mut self) -> (res: StringResult)
        requires
            old(self).wf(),
        ensures
            Self::step_done(
                glob_step(GlobState::ClassStart, old(self).rest()),
                old(self).pattern@,
                *final(self),
                res,
            ),
    {
        match self.next_char() {
            Some(chr) => {
                if chr == '!' {
                    self.state = State::Class(ClassAccumulator { negated: true, items: Vec::new() });
                } else if chr == '-' {
                    let mut items: Vec<ClassItem> = Vec::new();
                    items.push(ClassItem::Char('-'));
                    self.state = State::Class(ClassAccumulator { negated: false, items });
                } else if chr == ']' {
                    let mut items: Vec<ClassItem> = Vec::new();
                    items.push(ClassItem::Char(']'));
                    self.state = State::Class(ClassAccumulator { negated: false, items });
                } else if chr == '\\' {
                    self.state = State::ClassEscape(
                        ClassAccumulator { negated: false, items: Vec::new() },
                    );
                } else {
                    let mut items: Vec<ClassItem> = Vec::new();
                    items.push(ClassItem::Char(chr));
                    self.state = State::Class(ClassAccumulator { negated: false, items });
                }
                assert(self.state@ == glob_step(GlobState::ClassStart, old(self).rest())->Emit_1);
                Ok(None)
            },
            None => Err(Error::UnclosedClass),
        }
    }

    /// Handle a character in a character class specification.
    fn handle_class(&mut self, acc: ClassAccumulator) -> (res: StringResult)
        requires
            old(self).wf(),
        ensures
            Self::step_done(
                glob_step(GlobState::Class(acc@), old(self).rest()),
                old(self).pattern@,
                *final(self),
                res,
            ),
    {
        let mut acc = acc;
        let ghost a0 = acc@;
        match self.next_char() {
            Some(chr) => {
                if chr == ']' {
                    if acc.items.len() == 0 {
                        acc.items.push(ClassItem::Char(']'));
                        self.state = State::Class(acc);
                        Ok(None)
                    } else {
                        self.state = State::Literal;
                        Ok(Some(close_class(acc)))
                    }
                } else if chr == '-' {
                    match acc.items.pop() {
                        None => {
                            acc.items.push(ClassItem::Char('-'));
                            self.state = State::Class(acc);
                            Ok(None)
                        },
                        Some(ClassItem::Range(start, end)) => {
                            acc.items.push(ClassItem::Range(start, end));
                            assert(acc.items@ =~= a0.items);
                            self.state = State::ClassRangeDash(acc);
                            Ok(None)
                        },
                        Some(ClassItem::Char(start)) => {
                            self.state = State::ClassRange(acc, start);
                            Ok(None)
                        },
                    }
                } else if chr == '\\' {
                    self.state = State::ClassEscape(acc);
                    Ok(None)
                } else {
                    acc.items.push(ClassItem::Char(chr));
                    self.state = State::Class(acc);
                    Ok(None)
                }
            },
            None => Err(Error::UnclosedClass),
        }
    }

    /// Escape a character in a class specification.
    fn handle_class_escape(&mut self, acc: ClassAccumulator) -> (res: StringResult)
        requires
            old(self).wf(),
        ensures
            Self::step_done(
                glob_step(GlobState::ClassEscape(acc@), old(self).rest()),
                old(self).pattern@,
                *final(self),
                res,
            ),
    {
        let mut acc = acc;
        match self.next_char() {
            Some(chr) => {
                acc.items.push(ClassItem::Char(map_letter_escape(chr)));
                self.state = State::Class(acc);
                Ok(None)
            },
            None => Err(Error::UnclosedClass),
        }
    }

    /// Handle a character within a class range.
    fn handle_class_range(&mut self, acc: ClassAccumulator, start: char) -> (res: StringResult)
        requires
            old(self).wf(),
        ensures
            Self::step_done(
                glob_step(GlobState::ClassRange(acc@, start), old(self).rest()),
                old(self).pattern@,
                *final(self),
                res,
            ),
    {
        let mut acc = acc;
        match self.next_char() {
            Some(chr) => {
                if chr == '\\' {
                    Err(Error::NotImplemented(class_range_escape_text(&acc, start)))
                } else if chr == ']' {
                    acc.items.push(ClassItem::Char(start));
                    acc.items.push(ClassItem::Char('-'));
                    self.state = State::Literal;
                    Ok(Some(close_class(acc)))
                } else if start > chr {
                    Err(Error::ReversedRange(start, chr))
                } else if start == chr {
                    acc.items.push(ClassItem::Char(start));
                    self.state = State::Class(acc);
                    Ok(None)
                } else {
                    acc.items.push(ClassItem::Range(start, chr));
                    self.state = State::Class(acc);
                    Ok(None)
                }
            },
            None => Err(Error::UnclosedClass),
        }
    }

    /// Handle a dash immediately following a range within a character class.
    fn handle_class_range_dash(&mut self, acc: ClassAccumulator) -> (res: StringResult)
        requires
            old(self).wf(),
            glob_state_wf(GlobState::ClassRangeDash(acc@)),
        ensures
            Self::step_done(
                glob_step(GlobState::ClassRangeDash(acc@), old(self).rest()),
                old(self).pattern@,
                *final(self),
                res,
            ),
    {
        let mut acc = acc;
        match self.next_char() {
            Some(chr) => {
                if chr == ']' {
                    acc.items.push(ClassItem::Char('-'));
                    self.state = State::Literal;
                    Ok(Some(close_class(acc)))
                } else {
                    match acc.items.pop() {
                        Some(ClassItem::Range(start, end)) => Err(Error::RangeAfterRange(start, end)),
                        _ => Err(Error::UnclosedClass),
                    }
                }
            },
            None => Err(Error::UnclosedClass),
        }
    }

    /// Start a set of alternatives.
    fn handle_alternate(&mut self, current: Vec<char>, gathered: Vec<Vec<char>>) -> (res: StringResult)
        requires
            old(self).wf(),
        ensures
            Self::step_done(
                glob_step(GlobState::Alternate(current@, texts_view(gathered@)), old(self).rest()),
                old(self).pattern@,
                *final(self),
                res,
            ),
    {
        let mut current = current;
        let mut gathered = gathered;
        let ghost g0 = gathered@;
        match self.next_char() {
            Some(chr) => {
                if chr == ',' {
                    gathered.push(current);
                    assert(texts_view(gathered@) =~= texts_view(g0).push(current@));
                    self.state = State::Alternate(Vec::new(), gathered);
                    Ok(None)
                } else if chr == '}' {
                    self.state = State::Literal;
                    if current.len() == 0 && gathered.len() == 0 {
                        let mut out: Vec<char> = Vec::new();
                        out.push('\\');
                        out.push('{');
                        out.push('\\');
                        out.push('}');
                        assert(out@ =~= seq!['\\', '{', '\\', '}']);
                        Ok(Some(out))
                    } else {
                        gathered.push(current);
                        assert(texts_view(gathered@) =~= texts_view(g0).push(current@));
                        Ok(Some(close_alternate(gathered)))
                    }
                } else if chr == '\\' {
                    self.state = State::AlternateEscape(current, gathered);
                    Ok(None)
                } else if chr == '[' {
                    Err(Error::NotImplemented(String::from_str("FIXME: alternate character class")))
                } else {
                    current.push(chr);
                    self.state = State::Alternate(current, gathered);
                    Ok(None)
                }
            },
            None => Err(Error::UnclosedAlternation),
        }
    }

    /// Escape a character within a list of alternatives.
    fn handle_alternate_escape(&mut self, current: Vec<char>, gathered: Vec<Vec<char>>) -> (res: StringResult)
        requires
            old(self).wf(),
        ensures
            Self::step_done(
                glob_step(GlobState::AlternateEscape(current@, texts_view(gathered@)), old(self).rest()),
                old(self).pattern@,
                *final(self),
                res,
            ),
    {
        let mut current = current;
        match self.next_char() {
            Some(chr) => {
                current.push(map_letter_escape(chr));
                self.state = State::Alternate(current, gathered);
                Ok(None)
            },
            None => Err(Error::UnclosedAlternation),
        }
    }

    /// Runs one step of the parser: `None` once the pattern is done.
    fn next(&mut self) -> (res: Option<StringResult>)
        requires
            old(self).wf(),
            glob_state_wf(old(self).state@),
        ensures
            glob_step(old(self).state@, old(self).rest()) is Finished ==> res is None,
            !(glob_step(old(self).state@, old(self).rest()) is Finished) ==> (res matches Some(r)
                && Self::step_done(glob_step(old(self).state@, old(self).rest()), old(self).pattern@, *final(self), r)),
            res matches Some(Ok(_)) ==> glob_state_wf(final(self).state@),
    {
        let mut st = State::Start;
        std::mem::swap(&mut st, &mut self.state);
        let res = match st {
            State::Start => Some(Ok(Some(self.handle_start()))),
            State::End => {
                self.state = State::End;
                None
            },
            State::Literal => Some(Ok(self.handle_literal())),
            State::Escape => Some(self.handle_escape()),
            State::ClassStart => Some(self.handle_class_start()),
            State::Class(acc) => Some(self.handle_class(acc)),
            State::ClassEscape(acc) => Some(self.handle_class_escape(acc)),
            State::ClassRange(acc, start) => Some(self.handle_class_range(acc, start)),
            State::ClassRangeDash(acc) => Some(self.handle_class_range_dash(acc)),
            State::Alternate(current, gathered) => Some(self.handle_alternate(current, gathered)),
            State::AlternateEscape(current, gathered) => Some(
                self.handle_alternate_escape(current, gathered),
            ),
        };
        res
    }
}

// ---------------------------------------------------------------- conversion

/// Converts a shell glob-like pattern into the text of a regular expression.
///
/// See the module-level documentation for the pattern features supported.
pub fn glob_to_regex_pattern(pattern: &str) -> (res: Result<String, Error>)
    ensures
        match res {
            Ok(s) => regex_of_glob(pattern@) == Ok::<Seq<char>, GlobError>(s@),
            Err(e) => regex_of_glob(pattern@) == Err::<Seq<char>, GlobError>(e@),
        },
{
    let chars = str_chars(pattern);
    let mut parser = GlobIterator { pattern: chars, pos: 0, state: State::Start };
    let mut out: Vec<char> = Vec::new();
    assert(parser.rest() =~= pattern@);
    loop
        invariant
            parser.wf(),
            glob_state_wf(parser.state@),
            regex_of_glob(pattern@) == after(out@, glob_run(parser.state@, parser.rest())),
        decreases parser.rest().len() * 3 + state_rank(parser.state@),
    {
        let ghost st = parser.state@;
        let ghost rest = parser.rest();
        proof {
            lemma_step_progress(st, rest);
        }
        match parser.next() {
            None => {
                assert(out@ + Seq::<char>::empty() =~= out@);
                return Ok(string_from_chars(&out));
            },
            Some(Err(e)) => {
                return Err(e);
            },
            Some(Ok(piece)) => {
                let ghost before = out@;
                match piece {
                    Some(p) => {
                        let mut i: usize = 0;
                        while i < p.len()
                            invariant
                                0 <= i <= p.len(),
                                out@ == before + p@.take(i as int),
                            decreases p.len() - i,
                        {
                            out.push(p[i]);
                            i = i + 1;
                            assert(out@ =~= before + p@.take(i as int));
                        }
                        assert(p@.take(p.len() as int) =~= p@);
                    },
                    None => {
                        assert(out@ =~= before + Seq::<char>::empty());
                    },
                }
                proof {
                    let step = glob_step(st, rest);
                    let piece_t = piece_text(step->Emit_0);
                    assert(out@ == before + piece_t);
                    match glob_run(parser.state@, parser.rest()) {
                        Ok(o) => {
                            assert(before + (piece_t + o) =~= out@ + o);
                        },
                        Err(_) => {},
                    }
                }
            },
        }
    }
}

/// What compiling a pattern with `regex::Regex::new` reports: `None` when the
/// pattern compiles, else the text of the error.
pub uninterp spec fn regex_new_error(pattern: Seq<char>) -> Option<Seq<char>>;

/// `regex::Regex`, a compiled expression, held opaque.
#[verifier::external_type_specification]
#[verifier::external_body]
pub struct ExRegex(Regex);

/// Compiles a regular expression with `regex::Regex::new`, turning a refusal
/// into the error's message. The contract names the outcome as a function of
/// the pattern alone; which patterns compile is not spelled out.
#[verifier::external_body]
fn compile_regex(pattern: &str) -> (res: Result<Regex, String>)
    ensures
        match res {
            Ok(_) => regex_new_error(pattern@) is None,
            Err(m) => regex_new_error(pattern@) == Some(m@),
        },
{
    match Regex::new(pattern) {
        Ok(re) => Ok(re),
        Err(err) => Err(err.to_string()),
    }
}

/// Parse a shell glob-like pattern into a regular expression.
///
/// Errors: a syntax error in the pattern, or `InvalidRegex` with the
/// converted text and the regex engine's message when that text does not
/// compile.
pub fn glob_to_regex(pattern: &str) -> (res: Result<Regex, Error>)
    ensures
        match regex_of_glob(pattern@) {
            Err(e) => res matches Err(err) && err@ == e,
            Ok(t) => match regex_new_error(t) {
                None => res is Ok,
                Some(m) => res matches Err(err) && err@ == GlobError::InvalidRegex(t, m),
            },
        },
{
    let re_pattern = match glob_to_regex_pattern(pattern) {
        Ok(p) => p,
        Err(e) => return Err(e),
    };
    match compile_regex(re_pattern.as_str()) {
        Ok(re) => Ok(re),
        Err(msg) => Err(Error::InvalidRegex(re_pattern, msg)),
    }
}

// ---------------------------------------------------------------- laws

/// A class never matches a slash in a file name: once adjusted, a plain class
/// has no item that matches `/` and a negated class has one, while every other
/// character is matched by the adjusted items exactly when it was before.
pub proof fn lemma_class_slash(acc: ClassSpec)
    ensures
        items_cover(slash_adjusted(acc).items, '/') == acc.negated,
        forall|c: char|
            c != '/' ==> #[trigger] items_cover(slash_adjusted(acc).items, c) == items_cover(
                acc.items,
                c,
            ),
{
    if acc.negated {
        let items = acc.items;
        if !items_cover(items, '/') {
            assert(item_covers(items.push(ClassItem::Char('/'))[items.len() as int], '/'));
            assert(items_cover(items.push(ClassItem::Char('/')), '/'));
            assert forall|c: char| c != '/' implies items_cover(items.push(ClassItem::Char('/')), c)
                == items_cover(items, c) by {
                if items_cover(items.push(ClassItem::Char('/')), c) {
                    let i = choose|i: int|
                        0 <= i < items.len() + 1 && item_covers(
                            #[trigger] items.push(ClassItem::Char('/'))[i],
                            c,
                        );
                    assert(i < items.len());
                    assert(item_covers(items[i], c));
                }
                if items_cover(items, c) {
                    let i = choose|i: int| 0 <= i < items.len() && item_covers(#[trigger] items[i], c);
                    assert(items.push(ClassItem::Char('/'))[i] == items[i]);
                }
            }
        }
    } else {
        lemma_exclude_slash_covers(acc.items);
        assert(!items_cover(exclude_slash(acc.items), '/'));
    }
}

/// Taking the slash out of each item takes it out of what the items match.
proof fn lemma_exclude_slash_covers(items: Seq<ClassItem>)
    ensures
        forall|c: char|
            #[trigger] items_cover(exclude_slash(items), c) == (items_cover(items, c) && c != '/'),
    decreases items.len(),
{
    if items.len() > 0 {
        let init = items.drop_last();
        let last = items.last();
        lemma_exclude_slash_covers(init);
        let a = exclude_slash(init);
        let b = exclude_slash_item(last);
        assert(exclude_slash(items) == a + b);
        assert forall|c: char|
            items_cover(a + b, c) == (items_cover(items, c) && c != '/') by {
            assert(items_cover(b, c) == (item_covers(last, c) && c != '/')) by {
                if items_cover(b, c) {
                    let i = choose|i: int| 0 <= i < b.len() && item_covers(#[trigger] b[i], c);
                }
                if item_covers(last, c) && c != '/' {
                    match last {
                        ClassItem::Char(x) => {
                            assert(item_covers(b[0], c));
                        },
                        ClassItem::Range(s0, e0) => {
                            if (c as int) < ('/' as int) && b.len() == 2 {
                                assert(item_covers(b[0], c));
                            } else if (c as int) > ('/' as int) && b.len() == 2 {
                                assert(item_covers(b[1], c));
                            } else {
                                assert(item_covers(b[0], c));
                            }
                        },
                    }
                }
            }
            if items_cover(a + b, c) {
                let i = choose|i: int| 0 <= i < (a + b).len() && item_covers(#[trigger] (a + b)[i], c);
                if i < a.len() {
                    assert(item_covers(a[i], c));
                } else {
                    assert(item_covers(b[i - a.len()], c));
                }
            }
            if items_cover(a, c) {
                let i = choose|i: int| 0 <= i < a.len() && item_covers(#[trigger] a[i], c);
                assert((a + b)[i] == a[i]);
            }
            if items_cover(b, c) {
                let i = choose|i: int| 0 <= i < b.len() && item_covers(#[trigger] b[i], c);
                assert((a + b)[a.len() + i] == b[i]);
            }
            if items_cover(items, c) {
                let i = choose|i: int| 0 <= i < items.len() && item_covers(#[trigger] items[i], c);
                if i < init.len() {
                    assert(item_covers(init[i], c));
                }
            }
            if items_cover(init, c) {
                let i = choose|i: int| 0 <= i < init.len() && item_covers(#[trigger] init[i], c);
                assert(items[i] == init[i]);
            }
            if item_covers(last, c) {
                assert(item_covers(items[items.len() - 1], c));
            }
        }
    }
}

/// From any state but the end, a successful run ends its output with `$`.
proof fn lemma_run_ends_with_dollar(st: GlobState, rest: Seq<char>)
    requires
        !(st is End),
        glob_run(st, rest) is Ok,
    ensures
        glob_run(st, rest)->Ok_0.len() > 0,
        glob_run(st, rest)->Ok_0.last() == '$',
    decreases rest.len(), state_rank(st),
{
    lemma_step_progress(st, rest);
    match glob_step(st, rest) {
        GlobStep::Emit(piece, st2, rest2) => {
            if st2 is End {
                assert(piece_text(piece) =~= seq!['$']);
                assert(glob_run(st2, rest2) == Ok::<Seq<char>, GlobError>(Seq::empty()));
            } else {
                lemma_run_ends_with_dollar(st2, rest2);
                let o2 = glob_run(st2, rest2)->Ok_0;
                assert((piece_text(piece) + o2).last() == o2.last());
            }
        },
        _ => {},
    }
}

/// Every successful conversion is anchored: it starts with `^` and ends with `$`.
pub proof fn lemma_regex_anchored(pattern: Seq<char>)
    requires
        regex_of_glob(pattern) is Ok,
    ensures
        regex_of_glob(pattern)->Ok_0.len() >= 2,
        regex_of_glob(pattern)->Ok_0[0] == '^',
        regex_of_glob(pattern)->Ok_0.last() == '$',
{
    lemma_step_progress(GlobState::Start, pattern);
    lemma_run_ends_with_dollar(GlobState::Literal, pattern);
    let o = glob_run(GlobState::Literal, pattern)->Ok_0;
    assert(regex_of_glob(pattern)->Ok_0 == seq!['^'] + o);
}

/// A character outside classes, alternations and escapes.
pub open spec fn is_simple_glob_char(c: char) -> bool {
    !(c == '\\' || c == '[' || c == '{')
}

/// What a simple character becomes: `?` any one character but a slash, `*`
/// any run of characters, `]`, `}` and `.` escaped, anything else itself.
pub open spec fn simple_piece(c: char) -> Seq<char> {
    if c == '?' {
        seq!['[', '^', '/', ']']
    } else if c == '*' {
        seq!['.', '*']
    } else if c == ']' || c == '}' || c == '.' {
        seq!['\\', c]
    } else {
        seq![c]
    }
}

/// The pieces of a run of simple characters, in order.
pub open spec fn simple_text(p: Seq<char>) -> Seq<char>
    decreases p.len(),
{
    if p.len() == 0 {
        Seq::empty()
    } else {
        simple_piece(p[0]) + simple_text(p.drop_first())
    }
}

proof fn lemma_simple_run(rest: Seq<char>)
    requires
        forall|i: int| 0 <= i < rest.len() ==> is_simple_glob_char(#[trigger] rest[i]),
    ensures
        glob_run(GlobState::Literal, rest) == Ok::<Seq<char>, GlobError>(simple_text(rest) + seq!['$']),
    decreases rest.len(),
{
    lemma_step_progress(GlobState::Literal, rest);
    if rest.len() == 0 {
        assert(glob_run(GlobState::End, rest) == Ok::<Seq<char>, GlobError>(Seq::empty()));
        assert(simple_text(rest) + seq!['$'] =~= seq!['$'] + Seq::<char>::empty());
    } else {
        let r = rest.drop_first();
        assert forall|i: int| 0 <= i < r.len() implies is_simple_glob_char(#[trigger] r[i]) by {
            assert(r[i] == rest[i + 1]);
        }
        assert(is_simple_glob_char(rest[0]));
        lemma_simple_run(r);
        assert(glob_step(GlobState::Literal, rest) == GlobStep::Emit(
            Some(simple_piece(rest[0])),
            GlobState::Literal,
            r,
        ));
        assert(simple_piece(rest[0]) + (simple_text(r) + seq!['$']) =~= simple_text(rest)
            + seq!['$']);
    }
}

/// A pattern without classes, alternations or escapes converts piece by
/// piece: `?` to `[^/]`, `*` to `.*`, `]`, `}` and `.` escaped, every other
/// character copied, between `^` and `$`.
pub proof fn lemma_simple_pattern(pattern: Seq<char>)
    requires
        forall|i: int| 0 <= i < pattern.len() ==> is_simple_glob_char(#[trigger] pattern[i]),
    ensures
        regex_of_glob(pattern) == Ok::<Seq<char>, GlobError>(seq!['^'] + simple_text(pattern)
            + seq!['$']),
{
    lemma_step_progress(GlobState::Start, pattern);
    lemma_simple_run(pattern);
    assert(seq!['^'] + (simple_text(pattern) + seq!['$']) =~= seq!['^'] + simple_text(pattern)
        + seq!['$']);
}

} // verus!
