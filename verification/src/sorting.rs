//! Sort keys and their order.

use crate::text::texts_of;
use vstd::prelude::*;

verus! {

/// What a record is ordered by.
#[derive(Debug, PartialEq, Eq)]
pub enum SortKey {
    /// No key: such records are all alike.
    Nothing,
    /// A number, ordered by size.
    Number(u32),
    /// A text, ordered character by character.
    Text(Vec<char>),
    /// A list of texts, ordered text by text.
    TextList(Vec<Vec<char>>),
    /// A point in time: whole seconds, and the nanoseconds past them.
    Instant(i64, u32),
}

/// The mathematical value of a `SortKey`.
pub enum SortKeyView {
    Nothing,
    Number(u32),
    Text(Seq<char>),
    TextList(Seq<Seq<char>>),
    Instant(i64, u32),
}

impl View for SortKey {
    type V = SortKeyView;

    open spec fn view(&self) -> SortKeyView {
        match self {
            SortKey::Nothing => SortKeyView::Nothing,
            SortKey::Number(n) => SortKeyView::Number(*n),
            SortKey::Text(t) => SortKeyView::Text(t@),
            SortKey::TextList(l) => SortKeyView::TextList(texts_of(l@)),
            SortKey::Instant(s, n) => SortKeyView::Instant(*s, *n),
        }
    }
}

/// The values of a sequence of keys.
pub open spec fn key_views(keys: Seq<SortKey>) -> Seq<SortKeyView> {
    keys.map_values(|k: SortKey| k@)
}

/// Whether the character `a` comes before `b`: by code point.
pub open spec fn char_before(a: char, b: char) -> bool {
    (a as u32) < (b as u32)
}

/// Whether the text `a` comes before `b`: at the first place where they
/// differ `a` has the smaller character, or `a` ends there and `b` goes on.
pub open spec fn text_before(a: Seq<char>, b: Seq<char>) -> bool
    decreases a.len(),
{
    if b.len() == 0 {
        false
    } else if a.len() == 0 {
        true
    } else if a[0] != b[0] {
        char_before(a[0], b[0])
    } else {
        text_before(a.drop_first(), b.drop_first())
    }
}

/// Whether the list `a` comes before `b`: at the first place where they
/// differ `a` has the text that comes first, or `a` ends there and `b` goes on.
pub open spec fn list_before(a: Seq<Seq<char>>, b: Seq<Seq<char>>) -> bool
    decreases a.len(),
{
    if b.len() == 0 {
        false
    } else if a.len() == 0 {
        true
    } else if a[0] != b[0] {
        text_before(a[0], b[0])
    } else {
        list_before(a.drop_first(), b.drop_first())
    }
}

/// The place of a key's kind among the kinds.
pub open spec fn kind_rank(k: SortKeyView) -> int {
    match k {
        SortKeyView::Nothing => 0,
        SortKeyView::Number(_) => 1,
        SortKeyView::Text(_) => 2,
        SortKeyView::TextList(_) => 3,
        SortKeyView::Instant(_, _) => 4,
    }
}

/// Whether the key `a` comes before `b`. Keys of one kind go by their
/// values; keys of different kinds go by kind.
pub open spec fn key_before(a: SortKeyView, b: SortKeyView) -> bool {
    match (a, b) {
        (SortKeyView::Number(x), SortKeyView::Number(y)) => x < y,
        (SortKeyView::Text(x), SortKeyView::Text(y)) => text_before(x, y),
        (SortKeyView::TextList(x), SortKeyView::TextList(y)) => list_before(x, y),
        (SortKeyView::Instant(s, n), SortKeyView::Instant(t, m)) => s < t || (s == t && n < m),
        _ => kind_rank(a) < kind_rank(b),
    }
}

/// Whether a record with key `a` must stand before one with key `b`:
/// ascending, when `a` comes before `b`; descending, when `b` comes before `a`.
pub open spec fn goes_before(a: SortKeyView, b: SortKeyView, descending: bool) -> bool {
    if descending {
        key_before(b, a)
    } else {
        key_before(a, b)
    }
}

/// Of two different characters one comes before the other.
pub proof fn lemma_char_total(a: char, b: char)
    ensures
        a == b || char_before(a, b) || char_before(b, a),
{
}

/// No text comes before itself.
pub proof fn lemma_text_irreflexive(a: Seq<char>)
    ensures
        !text_before(a, a),
    decreases a.len(),
{
    if a.len() > 0 {
        lemma_text_irreflexive(a.drop_first());
    }
}

/// Of two different texts one comes before the other.
pub proof fn lemma_text_total(a: Seq<char>, b: Seq<char>)
    ensures
        a == b || text_before(a, b) || text_before(b, a),
    decreases a.len(),
{
    if a.len() == 0 || b.len() == 0 {
        if a.len() == 0 && b.len() == 0 {
            assert(a =~= b);
        }
    } else if a[0] == b[0] {
        lemma_text_total(a.drop_first(), b.drop_first());
        if a.drop_first() == b.drop_first() {
            assert(a =~= seq![a[0]] + a.drop_first());
            assert(b =~= seq![b[0]] + b.drop_first());
        }
    } else {
        lemma_char_total(a[0], b[0]);
    }
}

/// The order of texts is transitive.
pub proof fn lemma_text_transitive(a: Seq<char>, b: Seq<char>, c: Seq<char>)
    requires
        text_before(a, b),
        text_before(b, c),
    ensures
        text_before(a, c),
    decreases a.len(),
{
    if a.len() > 0 && a[0] == b[0] && b[0] == c[0] {
        lemma_text_transitive(a.drop_first(), b.drop_first(), c.drop_first());
    }
}

/// No list comes before itself.
pub proof fn lemma_list_irreflexive(a: Seq<Seq<char>>)
    ensures
        !list_before(a, a),
    decreases a.len(),
{
    if a.len() > 0 {
        lemma_list_irreflexive(a.drop_first());
    }
}

/// Of two different lists one comes before the other.
pub proof fn lemma_list_total(a: Seq<Seq<char>>, b: Seq<Seq<char>>)
    ensures
        a == b || list_before(a, b) || list_before(b, a),
    decreases a.len(),
{
    if a.len() == 0 || b.len() == 0 {
        if a.len() == 0 && b.len() == 0 {
            assert(a =~= b);
        }
    } else if a[0] == b[0] {
        lemma_list_total(a.drop_first(), b.drop_first());
        if a.drop_first() == b.drop_first() {
            assert(a =~= seq![a[0]] + a.drop_first());
            assert(b =~= seq![b[0]] + b.drop_first());
        }
    } else {
        lemma_text_total(a[0], b[0]);
    }
}

/// The order of lists is transitive.
pub proof fn lemma_list_transitive(a: Seq<Seq<char>>, b: Seq<Seq<char>>, c: Seq<Seq<char>>)
    requires
        list_before(a, b),
        list_before(b, c),
    ensures
        list_before(a, c),
    decreases a.len(),
{
    if a.len() > 0 {
        if a[0] == b[0] && b[0] == c[0] {
            lemma_list_transitive(a.drop_first(), b.drop_first(), c.drop_first());
        } else if a[0] != b[0] && b[0] != c[0] {
            lemma_text_transitive(a[0], b[0], c[0]);
            lemma_text_irreflexive(a[0]);
        }
    }
}

/// No key comes before itself.
pub proof fn lemma_key_irreflexive(a: SortKeyView)
    ensures
        !key_before(a, a),
{
    match a {
        SortKeyView::Text(x) => lemma_text_irreflexive(x),
        SortKeyView::TextList(x) => lemma_list_irreflexive(x),
        _ => {},
    }
}

/// Of two different keys one comes before the other.
pub proof fn lemma_key_total(a: SortKeyView, b: SortKeyView)
    ensures
        a == b || key_before(a, b) || key_before(b, a),
{
    match (a, b) {
        (SortKeyView::Text(x), SortKeyView::Text(y)) => lemma_text_total(x, y),
        (SortKeyView::TextList(x), SortKeyView::TextList(y)) => lemma_list_total(x, y),
        _ => {},
    }
}

/// The order of keys is transitive.
pub proof fn lemma_key_transitive(a: SortKeyView, b: SortKeyView, c: SortKeyView)
    requires
        key_before(a, b),
        key_before(b, c),
    ensures
        key_before(a, c),
{
    match (a, b, c) {
        (SortKeyView::Text(x), SortKeyView::Text(y), SortKeyView::Text(z)) => {
            lemma_text_transitive(x, y, z)
        },
        (SortKeyView::TextList(x), SortKeyView::TextList(y), SortKeyView::TextList(z)) => {
            lemma_list_transitive(x, y, z)
        },
        _ => {},
    }
}

/// Where neither `a` must stand before `b` nor `b` before `c`, `a` need
/// not stand before `c`.
pub proof fn lemma_not_before_transitive(
    a: SortKeyView,
    b: SortKeyView,
    c: SortKeyView,
    descending: bool,
)
    requires
        !goes_before(a, b, descending),
        !goes_before(b, c, descending),
    ensures
        !goes_before(a, c, descending),
{
    lemma_key_total(a, b);
    lemma_key_total(b, c);
    lemma_key_irreflexive(a);
    if descending {
        if a != b && b != c && key_before(c, a) {
            lemma_key_transitive(c, a, b);
            lemma_key_transitive(b, c, b);
            lemma_key_irreflexive(b);
        }
    } else {
        if a != b && b != c && key_before(a, c) {
            lemma_key_transitive(b, a, c);
            lemma_key_transitive(b, c, b);
            lemma_key_irreflexive(b);
        }
    }
}

/// Tests whether two character vectors hold the same text.
pub fn same_chars(a: &Vec<char>, b: &Vec<char>) -> (r: bool)
    ensures
        r == (a@ == b@),
{
    if a.len() != b.len() {
        return false;
    }
    let mut i: usize = 0;
    while i < a.len()
        invariant
            i <= a.len(),
            a.len() == b.len(),
            a@.take(i as int) == b@.take(i as int),
        decreases a.len() - i,
    {
        if a[i] != b[i] {
            return false;
        }
        assert(a@.take(i + 1) == a@.take(i as int).push(a@[i as int]));
        assert(b@.take(i + 1) == b@.take(i as int).push(b@[i as int]));
        i += 1;
    }
    assert(a@.take(a.len() as int) == a@);
    assert(b@.take(b.len() as int) == b@);
    true
}

/// Tests whether the text `a` comes before `b`.
pub fn text_precedes(a: &Vec<char>, b: &Vec<char>) -> (r: bool)
    ensures
        r == text_before(a@, b@),
{
    let mut i: usize = 0;
    assert(a@.skip(0) == a@ && b@.skip(0) == b@);
    while i < a.len() && i < b.len()
        invariant
            i <= a.len(),
            i <= b.len(),
            text_before(a@, b@) == text_before(a@.skip(i as int), b@.skip(i as int)),
        decreases a.len() - i,
    {
        let x = a[i];
        let y = b[i];
        assert(a@.skip(i as int)[0] == x && b@.skip(i as int)[0] == y);
        if x != y {
            return (x as u32) < (y as u32);
        }
        assert(a@.skip(i as int).drop_first() == a@.skip(i + 1));
        assert(b@.skip(i as int).drop_first() == b@.skip(i + 1));
        i += 1;
    }
    i < b.len()
}

/// Tests whether the list `a` comes before `b`.
pub fn list_precedes(a: &Vec<Vec<char>>, b: &Vec<Vec<char>>) -> (r: bool)
    ensures
        r == list_before(texts_of(a@), texts_of(b@)),
{
    let ghost x = texts_of(a@);
    let ghost y = texts_of(b@);
    let mut i: usize = 0;
    assert(x.skip(0) == x && y.skip(0) == y);
    while i < a.len() && i < b.len()
        invariant
            i <= a.len(),
            i <= b.len(),
            x == texts_of(a@),
            y == texts_of(b@),
            list_before(x, y) == list_before(x.skip(i as int), y.skip(i as int)),
        decreases a.len() - i,
    {
        assert(x.skip(i as int)[0] == a@[i as int]@ && y.skip(i as int)[0] == b@[i as int]@);
        if !same_chars(&a[i], &b[i]) {
            return text_precedes(&a[i], &b[i]);
        }
        assert(x.skip(i as int).drop_first() == x.skip(i + 1));
        assert(y.skip(i as int).drop_first() == y.skip(i + 1));
        i += 1;
    }
    i < b.len()
}

/// Tests whether the key `a` comes before `b`.
pub fn key_precedes(a: &SortKey, b: &SortKey) -> (r: bool)
    ensures
        r == key_before(a@, b@),
{
    match (a, b) {
        (SortKey::Number(x), SortKey::Number(y)) => *x < *y,
        (SortKey::Text(x), SortKey::Text(y)) => text_precedes(x, y),
        (SortKey::TextList(x), SortKey::TextList(y)) => list_precedes(x, y),
        (SortKey::Instant(s, n), SortKey::Instant(t, m)) => *s < *t || (*s == *t && *n < *m),
        _ => kind_number(a) < kind_number(b),
    }
}

/// The place of a key's kind among the kinds.
fn kind_number(k: &SortKey) -> (r: u8)
    ensures
        r == kind_rank(k@),
{
    match k {
        SortKey::Nothing => 0,
        SortKey::Number(_) => 1,
        SortKey::Text(_) => 2,
        SortKey::TextList(_) => 3,
        SortKey::Instant(_, _) => 4,
    }
}

/// Tests whether a record with key `a` must stand before one with key `b`.
pub fn must_precede(a: &SortKey, b: &SortKey, descending: bool) -> (r: bool)
    ensures
        r == goes_before(a@, b@, descending),
{
    if descending {
        key_precedes(b, a)
    } else {
        key_precedes(a, b)
    }
}

} // verus!
