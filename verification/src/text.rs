//! Text as sequences of characters: conversion between strings and character
//! vectors, searching, splitting, and decimal numbers.

use vstd::prelude::*;

verus! {

/// `String::push` appends the given character to the end of the string.
pub assume_specification[ std::string::String::push ](s: &mut std::string::String, ch: char)
    ensures
        final(s)@ == old(s)@.push(ch),
;

/// The characters of `s`, in order.
pub fn chars_of(s: &str) -> (v: Vec<char>)
    ensures
        v@ == s@,
{
    let mut v: Vec<char> = Vec::new();
    for c in it: s.chars()
        invariant
            v@ == it.seq().take(it.index()),
    {
        v.push(c);
    }
    v
}

/// The string that holds the characters of `v`, in order.
pub fn string_of(v: &Vec<char>) -> (s: String)
    ensures
        s@ == v@,
{
    let mut s = String::new();
    let mut i: usize = 0;
    while i < v.len()
        invariant
            i <= v.len(),
            s@ == v@.take(i as int),
        decreases v.len() - i,
    {
        s.push(v[i]);
        i += 1;
    }
    s
}

/// Appends the characters of `tail` to `v`.
pub fn extend_chars(v: &mut Vec<char>, tail: &Vec<char>)
    ensures
        final(v)@ == old(v)@ + tail@,
{
    let mut i: usize = 0;
    while i < tail.len()
        invariant
            i <= tail.len(),
            v@ == old(v)@ + tail@.take(i as int),
        decreases tail.len() - i,
    {
        v.push(tail[i]);
        i += 1;
    }
    assert(tail@.take(tail.len() as int) == tail@);
}

/// Appends the characters of `tail` to `v`.
pub fn extend_str(v: &mut Vec<char>, tail: &str)
    ensures
        final(v)@ == old(v)@ + tail@,
{
    let t = chars_of(tail);
    extend_chars(v, &t);
}

/// A copy of the part of `v` from `from` up to, not including, `to`.
pub fn slice_chars(v: &Vec<char>, from: usize, to: usize) -> (r: Vec<char>)
    requires
        from <= to <= v.len(),
    ensures
        r@ == v@.subrange(from as int, to as int),
{
    let mut r: Vec<char> = Vec::new();
    let mut i: usize = from;
    while i < to
        invariant
            from <= i <= to <= v.len(),
            r@ == v@.subrange(from as int, i as int),
        decreases to - i,
    {
        r.push(v[i]);
        i += 1;
    }
    r
}

/// Whether `pattern` stands in `text` at position `at`.
pub open spec fn occurs_at(text: Seq<char>, pattern: Seq<char>, at: int) -> bool {
    &&& 0 <= at
    &&& at + pattern.len() <= text.len()
    &&& text.subrange(at, at + pattern.len()) == pattern
}

/// Whether `pattern` stands somewhere in `text`. The empty pattern stands in
/// every text.
pub open spec fn occurs_in(text: Seq<char>, pattern: Seq<char>) -> bool {
    exists|at: int| occurs_at(text, pattern, at)
}

/// The first position at or after `from` at which `pattern` stands in
/// `text`, or `None` where it stands at none.
pub open spec fn position_from(text: Seq<char>, pattern: Seq<char>, from: int) -> Option<int>
    decreases text.len() + 1 - from,
{
    if from < 0 || from + pattern.len() > text.len() {
        None
    } else if occurs_at(text, pattern, from) {
        Some(from)
    } else {
        position_from(text, pattern, from + 1)
    }
}

/// The position that `position_from` gives is one at which the pattern
/// stands, and the first such; where it gives none, the pattern stands nowhere
/// at or after `from`.
pub proof fn lemma_position_from(text: Seq<char>, pattern: Seq<char>, from: int)
    requires
        0 <= from,
    ensures
        match position_from(text, pattern, from) {
            Some(at) => {
                &&& from <= at
                &&& occurs_at(text, pattern, at)
                &&& forall|earlier: int| from <= earlier < at ==> !occurs_at(text, pattern, earlier)
            },
            None => forall|at: int| from <= at ==> !occurs_at(text, pattern, at),
        },
    decreases text.len() + 1 - from,
{
    if from + pattern.len() <= text.len() && !occurs_at(text, pattern, from) {
        lemma_position_from(text, pattern, from + 1);
    }
}

/// The index that a position stands for.
pub open spec fn as_index(position: Option<usize>) -> Option<int> {
    match position {
        Some(at) => Some(at as int),
        None => None,
    }
}

/// Tests whether `pattern` stands in `text` at position `at`.
pub fn matches_at(text: &Vec<char>, pattern: &Vec<char>, at: usize) -> (r: bool)
    ensures
        r == occurs_at(text@, pattern@, at as int),
{
    if at > text.len() || pattern.len() > text.len() - at {
        return false;
    }
    let mut k: usize = 0;
    while k < pattern.len()
        invariant
            k <= pattern.len(),
            at + pattern.len() <= text.len(),
            text@.subrange(at as int, at + k) == pattern@.take(k as int),
        decreases pattern.len() - k,
    {
        if text[at + k] != pattern[k] {
            proof {
                let part = text@.subrange(at as int, at + pattern.len());
                assert(part[k as int] == text@[at + k]);
            }
            return false;
        }
        assert(text@.subrange(at as int, at + k + 1) == text@.subrange(at as int, at + k).push(
            text@[at + k],
        ));
        assert(pattern@.take(k + 1) == pattern@.take(k as int).push(pattern@[k as int]));
        k += 1;
    }
    assert(pattern@.take(pattern.len() as int) == pattern@);
    true
}

/// The first position at or after `from` at which `pattern` stands in `text`.
pub fn find_from(text: &Vec<char>, pattern: &Vec<char>, from: usize) -> (r: Option<usize>)
    ensures
        as_index(r) == position_from(text@, pattern@, from as int),
{
    let mut at: usize = from;
    while at < text.len()
        invariant
            from <= at,
            position_from(text@, pattern@, from as int) == position_from(
                text@,
                pattern@,
                at as int,
            ),
        decreases text.len() - at,
    {
        if matches_at(text, pattern, at) {
            return Some(at);
        }
        at += 1;
    }
    if matches_at(text, pattern, at) {
        Some(at)
    } else {
        assert(position_from(text@, pattern@, at as int) is None) by {
            if at + pattern@.len() <= text@.len() {
                assert(position_from(text@, pattern@, at + 1) is None);
            }
        }
        None
    }
}

/// Tests whether `pattern` stands somewhere in `text`.
pub fn contains(text: &Vec<char>, pattern: &Vec<char>) -> (r: bool)
    ensures
        r == occurs_in(text@, pattern@),
{
    proof {
        lemma_position_from(text@, pattern@, 0);
    }
    let found = find_from(text, pattern, 0);
    proof {
        if found is Some {
            assert(occurs_at(text@, pattern@, found->0 as int));
        }
    }
    found.is_some()
}

/// The texts_of of `text` from `from` on that lie between the places where
/// `separator` stands, found from left to right, no place overlapping the one
/// before.
pub open spec fn split_from(text: Seq<char>, separator: Seq<char>, from: int) -> Seq<Seq<char>>
    decreases text.len() - from,
{
    match position_from(text, separator, from) {
        Some(at) => if separator.len() > 0 && from <= at && at + separator.len() <= text.len() {
            seq![text.subrange(from, at)] + split_from(text, separator, at + separator.len())
        } else {
            seq![text.subrange(from, text.len() as int)]
        },
        None => seq![text.subrange(from, text.len() as int)],
    }
}

/// The texts_of of `text` that lie between the places where `separator`
/// stands. A text in which it stands nowhere is one piece.
pub open spec fn split_on(text: Seq<char>, separator: Seq<char>) -> Seq<Seq<char>> {
    split_from(text, separator, 0)
}

/// The texts that a vector of character vectors holds.
pub open spec fn texts_of(list: Seq<Vec<char>>) -> Seq<Seq<char>> {
    list.map_values(|t: Vec<char>| t@)
}

/// Splits `text` at the places where `separator` stands. With an empty
/// separator the text stays in one piece.
pub fn split(text: &Vec<char>, separator: &Vec<char>) -> (r: Vec<Vec<char>>)
    ensures
        texts_of(r@) == split_on(text@, separator@),
{
    let mut r: Vec<Vec<char>> = Vec::new();
    let mut from: usize = 0;
    assert(texts_of(r@) =~= Seq::empty());
    if separator.len() == 0 {
        let piece = slice_chars(text, 0, text.len());
        r.push(piece);
        assert(texts_of(r@) =~= seq![piece@]);
        return r;
    }
    loop
        invariant
            separator.len() > 0,
            from <= text.len(),
            split_on(text@, separator@) == texts_of(r@) + split_from(
                text@,
                separator@,
                from as int,
            ),
        decreases text.len() - from,
    {
        let ghost done = r@;
        proof {
            lemma_position_from(text@, separator@, from as int);
        }
        match find_from(text, separator, from) {
            Some(at) => {
                let piece = slice_chars(text, from, at);
                r.push(piece);
                assert(texts_of(r@) =~= texts_of(done).push(piece@));
                from = at + separator.len();
            },
            None => {
                let piece = slice_chars(text, from, text.len());
                r.push(piece);
                assert(texts_of(r@) =~= texts_of(done).push(piece@));
                return r;
            },
        }
    }
}

/// `text` without the characters that `unwanted` holds.
pub open spec fn without_chars(text: Seq<char>, unwanted: Set<char>) -> Seq<char> {
    text.filter(|c: char| !unwanted.contains(c))
}

/// Removes from `text` each character that is `first` or `second`.
pub fn remove_two_chars(text: &Vec<char>, first: char, second: char) -> (r: Vec<char>)
    ensures
        r@ == without_chars(text@, set![first, second]),
{
    let ghost wanted = |c: char| !set![first, second].contains(c);
    let mut r: Vec<char> = Vec::new();
    let mut i: usize = 0;
    assert(text@.take(0).filter(wanted) =~= Seq::empty()) by {
        reveal(Seq::filter);
    }
    while i < text.len()
        invariant
            i <= text.len(),
            wanted == |c: char| !set![first, second].contains(c),
            r@ == text@.take(i as int).filter(wanted),
        decreases text.len() - i,
    {
        let c = text[i];
        proof {
            assert(text@.take(i + 1).drop_last() == text@.take(i as int));
            assert(text@.take(i + 1).last() == c);
            reveal(Seq::filter);
        }
        if c != first && c != second {
            r.push(c);
        }
        i += 1;
    }
    assert(text@.take(text.len() as int) == text@);
    r
}

/// The texts of `parts` in a row, with `separator` between each two.
pub open spec fn joined(parts: Seq<Seq<char>>, separator: Seq<char>) -> Seq<char>
    decreases parts.len(),
{
    if parts.len() == 0 {
        Seq::empty()
    } else if parts.len() == 1 {
        parts[0]
    } else {
        joined(parts.drop_last(), separator) + separator + parts.last()
    }
}

/// Puts the texts of `parts` in a row, with `separator` between each two.
pub fn join(parts: &Vec<Vec<char>>, separator: &Vec<char>) -> (r: Vec<char>)
    ensures
        r@ == joined(texts_of(parts@), separator@),
{
    let ghost all = texts_of(parts@);
    let mut r: Vec<char> = Vec::new();
    let mut i: usize = 0;
    assert(all.take(0) =~= Seq::empty());
    while i < parts.len()
        invariant
            i <= parts.len(),
            all == texts_of(parts@),
            r@ == joined(all.take(i as int), separator@),
        decreases parts.len() - i,
    {
        proof {
            assert(all.take(i + 1).drop_last() == all.take(i as int));
            assert(all.take(i + 1).last() == parts@[i as int]@);
        }
        if i > 0 {
            extend_chars(&mut r, separator);
        } else {
            assert(all.take(1)[0] == parts@[0]@);
            assert(r@ + parts@[0]@ =~= parts@[0]@);
        }
        extend_chars(&mut r, &parts[i]);
        i += 1;
    }
    assert(all.take(parts.len() as int) == all);
    r
}

} // verus!
