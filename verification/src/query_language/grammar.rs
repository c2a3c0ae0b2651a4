//! The form of the tokens of a query: a resource word, or the name of an
//! operation with its arguments in parentheses.

use crate::text::{
    as_index, find_from, lemma_position_from, matches_at, occurs_at, position_from, remove_two_chars,
    slice_chars, without_chars,
};
use vstd::prelude::*;

verus! {

/// What stands between the two arguments of an operation: a comma and a space.
pub open spec fn pair_separator() -> Seq<char> {
    seq![',', ' ']
}

/// What stands between the operations of a query: two colons.
pub open spec fn list_separator() -> Seq<char> {
    seq![':', ':']
}

/// The position of the first closing parenthesis at or after `from`, on
/// the same line: `None` where the line or the token ends before one comes.
pub open spec fn close_from(token: Seq<char>, from: int) -> Option<int>
    decreases token.len() - from,
{
    if from < 0 || from >= token.len() {
        None
    } else if token[from] == ')' {
        Some(from)
    } else if token[from] == '\n' {
        None
    } else {
        close_from(token, from + 1)
    }
}

/// The position of the first comma and space at or after `from`, on the
/// same line: `None` where the line or the token ends before they come.
pub open spec fn comma_from(token: Seq<char>, from: int) -> Option<int>
    decreases token.len() - from,
{
    if from < 0 || from >= token.len() {
        None
    } else if occurs_at(token, pair_separator(), from) {
        Some(from)
    } else if token[from] == '\n' {
        None
    } else {
        comma_from(token, from + 1)
    }
}

/// How much of `token` an operation `name` with one argument takes up:
/// the name, an opening parenthesis, and what follows on the same line up to
/// the first closing parenthesis, inclusive. `None` where `token` does not
/// begin so.
pub open spec fn single_span(token: Seq<char>, name: Seq<char>) -> Option<int> {
    if occurs_at(token, name.push('('), 0) {
        match close_from(token, (name.len() + 1) as int) {
            Some(close) => Some(close + 1),
            None => None,
        }
    } else {
        None
    }
}

/// How much of `token` an operation `name` with two arguments takes up:
/// the name, an opening parenthesis, what follows on the same line up to the
/// first comma and space, and what follows them on the same line up to the
/// first closing parenthesis, inclusive. `None` where `token` does not begin so.
pub open spec fn pair_span(token: Seq<char>, name: Seq<char>) -> Option<int> {
    if occurs_at(token, name.push('('), 0) {
        match comma_from(token, (name.len() + 1) as int) {
            Some(comma) => match close_from(token, comma + 2) {
                Some(close) => Some(close + 1),
                None => None,
            },
            None => None,
        }
    } else {
        None
    }
}

/// What is left of the part that an operation takes up once its symbols
/// are stripped: the part without the name of the operation that it begins
/// with, and without any parenthesis. What stands behind the name stays as it
/// is, the name itself too where it stands there again.
pub open spec fn stripped(part: Seq<char>, name: Seq<char>) -> Seq<char> {
    if occurs_at(part, name, 0) {
        without_chars(part.skip(name.len() as int), set!['(', ')'])
    } else {
        without_chars(part, set!['(', ')'])
    }
}

/// The argument of an operation `name` with one argument at the start of
/// `token`, or `None` where `token` does not begin with one.
pub open spec fn single_argument(token: Seq<char>, name: Seq<char>) -> Option<Seq<char>> {
    match single_span(token, name) {
        Some(end) => Some(stripped(token.take(end), name)),
        None => None,
    }
}

/// The two arguments of an operation `name` with two arguments at the
/// start of `token`: what is left once the symbols are stripped, split at its
/// first comma and space. `None` where `token` does not begin with one.
pub open spec fn pair_arguments(token: Seq<char>, name: Seq<char>) -> Option<
    (Seq<char>, Seq<char>),
> {
    match pair_span(token, name) {
        Some(end) => {
            let inner = stripped(token.take(end), name);
            match position_from(inner, pair_separator(), 0) {
                Some(at) => if 0 <= at && at + 2 <= inner.len() {
                    Some((inner.take(at), inner.skip(at + 2)))
                } else {
                    None
                },
                None => None,
            }
        },
        None => None,
    }
}

/// The separator between two arguments.
pub fn pair_separator_chars() -> (r: Vec<char>)
    ensures
        r@ == pair_separator(),
{
    let mut r: Vec<char> = Vec::new();
    r.push(',');
    r.push(' ');
    assert(r@ =~= pair_separator());
    r
}

/// The separator between two operations.
pub fn list_separator_chars() -> (r: Vec<char>)
    ensures
        r@ == list_separator(),
{
    let mut r: Vec<char> = Vec::new();
    r.push(':');
    r.push(':');
    assert(r@ =~= list_separator());
    r
}

/// Finds the first closing parenthesis at or after `from`, on the same line.
pub fn find_close(token: &Vec<char>, from: usize) -> (r: Option<usize>)
    ensures
        as_index(r) == close_from(token@, from as int),
{
    let mut at: usize = from;
    while at < token.len()
        invariant
            from <= at,
            close_from(token@, from as int) == close_from(token@, at as int),
        decreases token.len() - at,
    {
        let c = token[at];
        if c == ')' {
            return Some(at);
        }
        if c == '\n' {
            return None;
        }
        at += 1;
    }
    None
}

/// Finds the first comma and space at or after `from`, on the same line.
pub fn find_comma(token: &Vec<char>, from: usize) -> (r: Option<usize>)
    ensures
        as_index(r) == comma_from(token@, from as int),
{
    let separator = pair_separator_chars();
    let mut at: usize = from;
    while at < token.len()
        invariant
            from <= at,
            separator@ == pair_separator(),
            comma_from(token@, from as int) == comma_from(token@, at as int),
        decreases token.len() - at,
    {
        if matches_at(token, &separator, at) {
            return Some(at);
        }
        if token[at] == '\n' {
            return None;
        }
        at += 1;
    }
    None
}

/// Tests whether `token` begins with `name` and an opening parenthesis.
pub fn opens_with(token: &Vec<char>, name: &Vec<char>) -> (r: bool)
    ensures
        r == occurs_at(token@, name@.push('('), 0),
{
    let mut opening = slice_chars(name, 0, name.len());
    assert(opening@ =~= name@);
    opening.push('(');
    matches_at(token, &opening, 0)
}

/// Strips the symbols from the part that an operation takes up.
pub fn strip(part: &Vec<char>, name: &Vec<char>) -> (r: Vec<char>)
    ensures
        r@ == stripped(part@, name@),
{
    if matches_at(part, name, 0) {
        let rest = slice_chars(part, name.len(), part.len());
        assert(rest@ =~= part@.skip(name.len() as int));
        remove_two_chars(&rest, '(', ')')
    } else {
        remove_two_chars(part, '(', ')')
    }
}

/// Reads an operation `name` with one argument from the start of `token`.
pub fn read_single(token: &Vec<char>, name: &Vec<char>) -> (r: Option<Vec<char>>)
    ensures
        match r {
            Some(argument) => single_argument(token@, name@) == Some(argument@),
            None => single_argument(token@, name@) is None,
        },
{
    if !opens_with(token, name) {
        return None;
    }
    assert(name.len() < token.len());
    match find_close(token, name.len() + 1) {
        Some(close) => {
            proof {
                lemma_close_from(token@, name.len() + 1);
            }
            let part = slice_chars(token, 0, close + 1);
            Some(strip(&part, name))
        },
        None => None,
    }
}

/// Reads an operation `name` with two arguments from the start of `token`.
pub fn read_pair(token: &Vec<char>, name: &Vec<char>) -> (r: Option<(Vec<char>, Vec<char>)>)
    ensures
        match r {
            Some((first, second)) => pair_arguments(token@, name@) == Some((first@, second@)),
            None => pair_arguments(token@, name@) is None,
        },
{
    if !opens_with(token, name) {
        return None;
    }
    assert(name.len() < token.len());
    let comma = match find_comma(token, name.len() + 1) {
        Some(comma) => comma,
        None => {
            return None;
        },
    };
    proof {
        lemma_comma_from(token@, name.len() + 1);
    }
    let close = match find_close(token, comma + 2) {
        Some(close) => close,
        None => {
            return None;
        },
    };
    proof {
        lemma_close_from(token@, comma + 2);
    }
    let part = slice_chars(token, 0, close + 1);
    let inner = strip(&part, name);
    let separator = pair_separator_chars();
    proof {
        lemma_position_from(inner@, separator@, 0);
    }
    match find_from(&inner, &separator, 0) {
        Some(at) => {
            assert(position_from(inner@, separator@, 0) == Some(at as int));
            assert(occurs_at(inner@, separator@, at as int));
            assert(separator@.len() == 2);
            assert(at + 2 <= inner.len());
            let first = slice_chars(&inner, 0, at);
            let second = slice_chars(&inner, at + 2, inner.len());
            Some((first, second))
        },
        None => None,
    }
}

/// A closing parenthesis that `close_from` finds lies in the token, at or
/// after the place where the search began.
pub proof fn lemma_close_from(token: Seq<char>, from: int)
    requires
        0 <= from,
    ensures
        match close_from(token, from) {
            Some(close) => from <= close < token.len(),
            None => true,
        },
    decreases token.len() - from,
{
    if from < token.len() && token[from] != ')' && token[from] != '\n' {
        lemma_close_from(token, from + 1);
    }
}

/// A comma and space that `comma_from` finds lie in the token, at or
/// after the place where the search began.
pub proof fn lemma_comma_from(token: Seq<char>, from: int)
    requires
        0 <= from,
    ensures
        match comma_from(token, from) {
            Some(comma) => from <= comma && comma + 2 <= token.len(),
            None => true,
        },
    decreases token.len() - from,
{
    if from < token.len() && !occurs_at(token, pair_separator(), from) && token[from] != '\n' {
        lemma_comma_from(token, from + 1);
    }
}

} // verus!
