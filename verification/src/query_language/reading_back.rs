//! A query that is written out reads back as itself.

use crate::error::SyntaxFault;
use crate::query_language::grammar::{
    close_from, comma_from, list_separator, pair_arguments, pair_separator, pair_span,
    single_argument, single_span, stripped,
};
use crate::decimal::{decimal, is_digit, lemma_decimal_digits, lemma_decimal_reads_back};
use crate::query_language::operand::OperandView;
use crate::query_language::operation::{operation_text, token_operation, OperationView, Root};
use crate::query_language::operation_list::{
    query_operations, query_text, tokens_operations,
};
use crate::text::{
    joined, occurs_at, occurs_in, position_from, split_from, split_on, without_chars,
};
use vstd::prelude::*;

verus! {

/// Whether `c` is one of the characters that the form of a query is made
/// of: a parenthesis, a comma, a space, a colon or a line break.
pub open spec fn is_symbol(c: char) -> bool {
    c == '(' || c == ')' || c == ',' || c == ' ' || c == ':' || c == '\n'
}

/// Whether `name` can be the name of an operation: it is not empty and
/// holds none of the characters that the form of a query is made of.
pub open spec fn is_name(name: Seq<char>) -> bool {
    name.len() > 0 && forall|i: int| 0 <= i < name.len() ==> !is_symbol(#[trigger] name[i])
}

/// Whether `text` can stand as an argument of an operation as it is: it
/// holds no parenthesis and no line break, and no pair of colons stands in it.
pub open spec fn plain_argument(text: Seq<char>) -> bool {
    &&& forall|i: int|
        0 <= i < text.len() ==> (#[trigger] text[i]) != '(' && text[i] != ')' && text[i] != '\n'
    &&& !occurs_in(text, list_separator())
}

/// Whether `text` can stand as the first of two arguments of an operation
/// as it is: it can stand as an argument, and no comma and space stand in it.
pub open spec fn plain_first_argument(text: Seq<char>) -> bool {
    plain_argument(text) && !occurs_in(text, pair_separator())
}

/// A pattern that stands at a place of a text stands in the text.
pub proof fn lemma_occurs(text: Seq<char>, pattern: Seq<char>, at: int)
    requires
        occurs_at(text, pattern, at),
    ensures
        occurs_in(text, pattern),
{
}

/// A pattern stands at a place where each of its characters stands.
pub proof fn lemma_occurs_at(text: Seq<char>, pattern: Seq<char>, at: int)
    requires
        0 <= at,
        at + pattern.len() <= text.len(),
        forall|k: int| 0 <= k < pattern.len() ==> text[at + k] == #[trigger] pattern[k],
    ensures
        occurs_at(text, pattern, at),
{
    assert(text.subrange(at, at + pattern.len()) =~= pattern);
}

/// Where a pattern stands, each of its characters stands.
pub proof fn lemma_occurrence(text: Seq<char>, pattern: Seq<char>, at: int, k: int)
    requires
        occurs_at(text, pattern, at),
        0 <= k < pattern.len(),
    ensures
        text[at + k] == pattern[k],
{
    assert(text.subrange(at, at + pattern.len())[k] == text[at + k]);
}

/// The closing parenthesis is found where it stands, if neither another
/// nor a line break stands before it.
pub proof fn lemma_close_found(token: Seq<char>, from: int, close: int)
    requires
        0 <= from <= close < token.len(),
        token[close] == ')',
        forall|k: int| from <= k < close ==> token[k] != ')' && token[k] != '\n',
    ensures
        close_from(token, from) == Some(close),
    decreases close - from,
{
    if from < close {
        lemma_close_found(token, from + 1, close);
    }
}

/// The comma and space are found where they stand, if neither they nor a
/// line break stand before that place.
pub proof fn lemma_comma_found(token: Seq<char>, from: int, comma: int)
    requires
        0 <= from <= comma < token.len(),
        occurs_at(token, pair_separator(), comma),
        forall|k: int|
            from <= k < comma ==> !occurs_at(token, pair_separator(), k) && token[k] != '\n',
    ensures
        comma_from(token, from) == Some(comma),
    decreases comma - from,
{
    if from < comma {
        lemma_comma_found(token, from + 1, comma);
    }
}

/// A pattern is found at the first place where it stands.
pub proof fn lemma_position_found(text: Seq<char>, pattern: Seq<char>, from: int, at: int)
    requires
        0 <= from <= at,
        occurs_at(text, pattern, at),
        forall|k: int| from <= k < at ==> !occurs_at(text, pattern, k),
    ensures
        position_from(text, pattern, from) == Some(at),
    decreases at - from,
{
    if from < at {
        lemma_position_found(text, pattern, from + 1, at);
    }
}

/// A pattern that stands nowhere at or after a place is not found from there.
pub proof fn lemma_position_missing(text: Seq<char>, pattern: Seq<char>, from: int)
    requires
        0 <= from,
        forall|k: int| from <= k ==> !occurs_at(text, pattern, k),
    ensures
        position_from(text, pattern, from) is None,
    decreases text.len() + 1 - from,
{
    if from + pattern.len() <= text.len() {
        lemma_position_missing(text, pattern, from + 1);
    }
}

/// A text that holds none of the unwanted characters is left as it is
/// when they are taken out.
pub proof fn lemma_chars_absent(text: Seq<char>, unwanted: Set<char>)
    requires
        forall|i: int| 0 <= i < text.len() ==> !unwanted.contains(#[trigger] text[i]),
    ensures
        without_chars(text, unwanted) == text,
    decreases text.len(),
{
    reveal(Seq::filter);
    if text.len() > 0 {
        let rest = text.drop_last();
        assert forall|i: int| 0 <= i < rest.len() implies !unwanted.contains(#[trigger] rest[i]) by {
            assert(rest[i] == text[i]);
        }
        lemma_chars_absent(rest, unwanted);
        assert(text =~= rest.push(text.last()));
    }
}

/// Taking characters out of two texts in a row is taking them out of each.
pub proof fn lemma_without_chars_in_a_row(a: Seq<char>, b: Seq<char>, unwanted: Set<char>)
    ensures
        without_chars(a + b, unwanted) == without_chars(a, unwanted) + without_chars(b, unwanted),
{
    Seq::filter_distributes_over_add(a, b, |c: char| !unwanted.contains(c));
}

/// A parenthesis is gone once the parentheses are taken out.
pub proof fn lemma_parenthesis_taken_out(c: char)
    requires
        c == '(' || c == ')',
    ensures
        without_chars(seq![c], set!['(', ')']) == Seq::<char>::empty(),
{
    reveal(Seq::filter);
    assert(seq![c].drop_last() =~= Seq::<char>::empty());
    assert(Seq::<char>::empty().filter(|c: char| !set!['(', ')'].contains(c)) =~= Seq::<
        char,
    >::empty());
}

/// An operation with one argument that holds neither a closing
/// parenthesis nor a line break takes up the whole of what it is written as.
pub proof fn lemma_single_span(name: Seq<char>, argument: Seq<char>)
    requires
        forall|i: int|
            0 <= i < argument.len() ==> (#[trigger] argument[i]) != ')' && argument[i] != '\n',
    ensures
        single_span(name + seq!['('] + argument + seq![')'], name) == Some(
            (name + seq!['('] + argument + seq![')']).len() as int,
        ),
{
    let token = name + seq!['('] + argument + seq![')'];
    let start: int = (name.len() + 1) as int;
    let close: int = start + argument.len();
    assert(token.subrange(0, start) =~= name.push('('));
    assert forall|k: int| start <= k < close implies token[k] != ')' && token[k] != '\n' by {
        assert(token[k] == argument[k - start]);
    }
    assert(token[close] == ')');
    lemma_close_found(token, start, close);
}

/// An operation with one argument is written as its name and, in
/// parentheses, the argument, however the parts are put together.
pub proof fn lemma_single_shape(name: Seq<char>, argument: Seq<char>)
    ensures
        name + seq!['('] + argument + seq![')'] == name + (seq!['('] + (argument + seq![')'])),
        (name + seq!['('] + argument + seq![')']).take(
            (name + seq!['('] + argument + seq![')']).len() as int,
        ) == name + seq!['('] + argument + seq![')'],
{
    let token = name + seq!['('] + argument + seq![')'];
    assert(token =~= name + (seq!['('] + (argument + seq![')'])));
    assert(token.take(token.len() as int) =~= token);
}

/// An operation with one argument that can stand as it is reads back as
/// that argument.
pub proof fn lemma_single_reads_back(name: Seq<char>, argument: Seq<char>)
    requires
        plain_argument(argument),
    ensures
        single_argument(name + seq!['('] + argument + seq![')'], name) == Some(argument),
{
    lemma_single_span(name, argument);
    lemma_stripped(name, argument);
    lemma_single_shape(name, argument);
}

/// The name of an operation, and its arguments in parentheses, are the
/// arguments once the symbols are stripped, if the arguments hold no
/// parenthesis.
pub proof fn lemma_stripped(name: Seq<char>, arguments: Seq<char>)
    requires
        forall|i: int|
            0 <= i < arguments.len() ==> (#[trigger] arguments[i]) != '(' && arguments[i] != ')',
    ensures
        stripped(name + (seq!['('] + (arguments + seq![')'])), name) == arguments,
{
    let parens = set!['(', ')'];
    let part = name + (seq!['('] + (arguments + seq![')']));
    assert(part.subrange(0, name.len() as int) =~= name);
    assert(part.skip(name.len() as int) =~= seq!['('] + (arguments + seq![')']));
    lemma_without_chars_in_a_row(seq!['('], arguments + seq![')'], parens);
    lemma_without_chars_in_a_row(arguments, seq![')'], parens);
    lemma_parenthesis_taken_out('(');
    lemma_parenthesis_taken_out(')');
    lemma_chars_absent(arguments, parens);
    assert(Seq::<char>::empty() + (arguments + Seq::<char>::empty()) =~= arguments);
}

/// A pattern stands at a place behind a prefix just when it stands at
/// that place of what follows the prefix.
pub proof fn lemma_occurs_behind(prefix: Seq<char>, text: Seq<char>, pattern: Seq<char>, k: int)
    requires
        0 <= k,
    ensures
        occurs_at(prefix + text, pattern, prefix.len() + k) == occurs_at(text, pattern, k),
{
    let whole = prefix + text;
    if k + pattern.len() <= text.len() {
        assert(whole.subrange(prefix.len() + k, prefix.len() + k + pattern.len()) =~= text.subrange(
            k,
            k + pattern.len(),
        ));
    }
}

/// The comma and space stand at no place of a first argument in which
/// they do not stand, whatever follows the comma and space behind it.
pub proof fn lemma_no_separator_in_first(first: Seq<char>, tail: Seq<char>, k: int)
    requires
        !occurs_in(first, pair_separator()),
        0 <= k < first.len(),
    ensures
        !occurs_at(first + pair_separator() + tail, pair_separator(), k),
{
    let separator = pair_separator();
    let text = first + separator + tail;
    if occurs_at(text, separator, k) {
        lemma_occurrence(text, separator, k, 0);
        lemma_occurrence(text, separator, k, 1);
        if k + 1 < first.len() {
            assert(first.subrange(k, k + 2) =~= separator);
            lemma_occurs(first, separator, k);
        } else {
            assert(text[k + 1] == ',');
        }
    }
}

/// An operation with two arguments that can stand as they are takes up
/// the whole of what it is written as.
pub proof fn lemma_pair_span(name: Seq<char>, first: Seq<char>, second: Seq<char>)
    requires
        plain_first_argument(first),
        plain_argument(second),
    ensures
        pair_span(
            name + seq!['('] + first + pair_separator() + second + seq![')'],
            name,
        ) == Some((name + seq!['('] + first + pair_separator() + second + seq![')']).len() as int),
{
    let separator = pair_separator();
    let token = name + seq!['('] + first + separator + second + seq![')'];
    let opening = name + seq!['('];
    let tail = second + seq![')'];
    let start: int = (name.len() + 1) as int;
    let comma: int = start + first.len();
    let close: int = comma + 2 + second.len();
    assert(token =~= opening + (first + separator + tail));
    assert(token.subrange(0, start) =~= name.push('('));
    assert forall|k: int| start <= k < comma implies !occurs_at(token, separator, k) && token[k]
        != '\n' by {
        assert(token[k] == first[k - start]);
        lemma_no_separator_in_first(first, tail, k - start);
        lemma_occurs_behind(opening, first + separator + tail, separator, k - start);
    }
    assert(occurs_at(token, separator, comma)) by {
        assert(token.subrange(comma, comma + 2) =~= separator);
    }
    lemma_comma_found(token, start, comma);
    assert forall|k: int| comma + 2 <= k < close implies token[k] != ')' && token[k] != '\n' by {
        assert(token[k] == second[k - comma - 2]);
    }
    assert(token[close] == ')');
    lemma_close_found(token, comma + 2, close);
}

/// Two arguments with a comma and a space between them split into the
/// two, if no comma and space stand in the first.
pub proof fn lemma_pair_splits(first: Seq<char>, second: Seq<char>)
    requires
        !occurs_in(first, pair_separator()),
    ensures
        position_from(first + pair_separator() + second, pair_separator(), 0) == Some(
            first.len() as int,
        ),
        (first + pair_separator() + second).take(first.len() as int) == first,
        (first + pair_separator() + second).skip((first.len() + 2) as int) == second,
{
    let separator = pair_separator();
    let both = first + separator + second;
    assert(occurs_at(both, separator, first.len() as int)) by {
        assert(both.subrange(first.len() as int, (first.len() + 2) as int) =~= separator);
    }
    assert forall|k: int| 0 <= k < first.len() implies !occurs_at(both, separator, k) by {
        lemma_no_separator_in_first(first, second, k);
    }
    lemma_position_found(both, separator, 0, first.len() as int);
    assert(both.take(first.len() as int) =~= first);
    assert(both.skip((first.len() + 2) as int) =~= second);
}

/// An operation with two arguments that can stand as they are reads back
/// as those arguments.
pub proof fn lemma_pair_reads_back(name: Seq<char>, first: Seq<char>, second: Seq<char>)
    requires
        plain_first_argument(first),
        plain_argument(second),
    ensures
        pair_arguments(
            name + seq!['('] + first + pair_separator() + second + seq![')'],
            name,
        ) == Some((first, second)),
{
    let separator = pair_separator();
    let both = first + separator + second;
    let token = name + seq!['('] + first + separator + second + seq![')'];
    lemma_pair_span(name, first, second);
    assert(token.take(token.len() as int) =~= token);
    assert(token =~= name + (seq!['('] + (both + seq![')'])));
    assert forall|i: int| 0 <= i < both.len() implies (#[trigger] both[i]) != '(' && both[i]
        != ')' by {
        if i < first.len() {
            assert(both[i] == first[i]);
        } else if i >= first.len() + 2 {
            assert(both[i] == second[i - first.len() - 2]);
        }
    }
    lemma_stripped(name, both);
    lemma_pair_splits(first, second);
}

/// A token that begins with the name of one operation and a parenthesis
/// does not begin with the name of another and a parenthesis.
pub proof fn lemma_other_name(token: Seq<char>, name: Seq<char>, other: Seq<char>)
    requires
        is_name(name),
        is_name(other),
        name != other,
        occurs_at(token, name.push('('), 0),
    ensures
        !occurs_at(token, other.push('('), 0),
{
    if occurs_at(token, other.push('('), 0) {
        if other.len() == name.len() {
            assert(name.push('(').drop_last() =~= name);
            assert(other.push('(').drop_last() =~= other);
        } else if other.len() < name.len() {
            lemma_occurrence(token, other.push('('), 0, other.len() as int);
            lemma_occurrence(token, name.push('('), 0, other.len() as int);
            assert(is_symbol(name[other.len() as int]));
        } else {
            lemma_occurrence(token, other.push('('), 0, name.len() as int);
            lemma_occurrence(token, name.push('('), 0, name.len() as int);
            assert(is_symbol(other[name.len() as int]));
        }
    }
}

/// A token that begins with the name of an operation and a parenthesis
/// does not begin with a word that the name does not begin with.
pub proof fn lemma_no_word(token: Seq<char>, name: Seq<char>, word: Seq<char>, differs: int)
    requires
        is_name(name),
        is_name(word),
        occurs_at(token, name.push('('), 0),
        word.len() > name.len() || (0 <= differs < word.len() && name[differs] != word[differs]),
    ensures
        !occurs_at(token, word, 0),
{
    if occurs_at(token, word, 0) {
        if word.len() > name.len() {
            lemma_occurrence(token, word, 0, name.len() as int);
            lemma_occurrence(token, name.push('('), 0, name.len() as int);
            assert(is_symbol(word[name.len() as int]));
        } else {
            lemma_occurrence(token, word, 0, differs);
            lemma_occurrence(token, name.push('('), 0, differs);
        }
    }
}

/// A number in decimal can stand as an argument as it is.
pub proof fn lemma_decimal_is_plain(n: nat)
    ensures
        plain_argument(decimal(n)),
{
    let text = decimal(n);
    lemma_decimal_digits(n);
    assert forall|i: int| 0 <= i < text.len() implies (#[trigger] text[i]) != '(' && text[i] != ')'
        && text[i] != '\n' by {
        assert(is_digit(text[i]));
    }
    assert forall|k: int| !occurs_at(text, list_separator(), k) by {
        if occurs_at(text, list_separator(), k) {
            lemma_occurrence(text, list_separator(), k, 0);
            assert(is_digit(text[k]));
        }
    }
}

/// Whether an operation reads back as itself once it is written out: it
/// is one of the operations that a query can hold, its arguments are of the
/// kind that the operation is read with, and they can stand as they are.
pub open spec fn reads_back(op: OperationView) -> bool {
    match op {
        OperationView::Root(_) => true,
        OperationView::Name(OperandView::Text(name)) => plain_argument(name),
        OperationView::Page(OperandView::Number(_)) => true,
        OperationView::Dimension(OperandView::Text(dimension)) => plain_argument(dimension),
        OperationView::Contains(OperandView::Text(field), OperandView::Text(value)) => {
            plain_first_argument(field) && plain_argument(value)
        },
        OperationView::Length(OperandView::Text(field), OperandView::Text(value)) => {
            plain_first_argument(field) && plain_argument(value)
        },
        OperationView::Sort(OperandView::Text(direction), OperandView::Text(field)) => {
            plain_first_argument(direction) && plain_argument(field)
        },
        OperationView::Limit(OperandView::Number(_)) => true,
        _ => false,
    }
}

/// The names of the operations are names, and no two of them are one.
pub proof fn lemma_names()
    ensures
        is_name("NAME"@),
        is_name("PAGE"@),
        is_name("DIMENSION"@),
        is_name("CONTAINS"@),
        is_name("LENGTH"@),
        is_name("SORT"@),
        is_name("LIMIT"@),
        is_name("CHARACTERS"@),
        is_name("EPISODES"@),
        is_name("LOCATIONS"@),
        "NAME"@[0] == 'N',
        "PAGE"@[0] == 'P',
        "DIMENSION"@[0] == 'D',
        "CONTAINS"@[0] == 'C',
        "CONTAINS"@[1] == 'O',
        "LENGTH"@[0] == 'L',
        "LENGTH"@[1] == 'E',
        "SORT"@[0] == 'S',
        "LIMIT"@[0] == 'L',
        "LIMIT"@[1] == 'I',
        "CHARACTERS"@[0] == 'C',
        "CHARACTERS"@[1] == 'H',
        "EPISODES"@[0] == 'E',
        "LOCATIONS"@[0] == 'L',
        "LOCATIONS"@[1] == 'O',
        "NAME"@.len() == 4,
        "PAGE"@.len() == 4,
        "DIMENSION"@.len() == 9,
        "CONTAINS"@.len() == 8,
        "LENGTH"@.len() == 6,
        "SORT"@.len() == 4,
        "LIMIT"@.len() == 5,
        "CHARACTERS"@.len() == 10,
        "EPISODES"@.len() == 8,
        "LOCATIONS"@.len() == 9,
{
    reveal_strlit("NAME");
    reveal_strlit("PAGE");
    reveal_strlit("DIMENSION");
    reveal_strlit("CONTAINS");
    reveal_strlit("LENGTH");
    reveal_strlit("SORT");
    reveal_strlit("LIMIT");
    reveal_strlit("CHARACTERS");
    reveal_strlit("EPISODES");
    reveal_strlit("LOCATIONS");
}

/// Whether `name` is the name of an operation that a query can hold.
pub open spec fn is_operation_name(name: Seq<char>) -> bool {
    name == "NAME"@ || name == "PAGE"@ || name == "DIMENSION"@ || name == "CONTAINS"@ || name
        == "LENGTH"@ || name == "SORT"@ || name == "LIMIT"@
}

/// A token that begins with the name of an operation and a parenthesis
/// begins with the word of no resource, and with the name of no other
/// operation and a parenthesis.
pub proof fn lemma_one_name(token: Seq<char>, name: Seq<char>)
    requires
        is_operation_name(name),
        occurs_at(token, name.push('('), 0),
    ensures
        !occurs_at(token, "CHARACTERS"@, 0),
        !occurs_at(token, "EPISODES"@, 0),
        !occurs_at(token, "LOCATIONS"@, 0),
        forall|other: Seq<char>|
            is_operation_name(other) && other != name ==> !occurs_at(
                token,
                #[trigger] other.push('('),
                0,
            ),
{
    lemma_names();
    lemma_no_word(token, name, "CHARACTERS"@, 0);
    lemma_no_word(token, name, "EPISODES"@, 0);
    lemma_no_word(token, name, "LOCATIONS"@, 0);
    assert forall|other: Seq<char>| is_operation_name(other) && other != name implies !occurs_at(
        token,
        #[trigger] other.push('('),
        0,
    ) by {
        lemma_other_name(token, name, other);
    }
}

/// An operation with one argument, written out, begins with its name and
/// a parenthesis.
pub proof fn lemma_single_begins(name: Seq<char>, argument: Seq<char>)
    ensures
        occurs_at(name + seq!['('] + argument + seq![')'], name.push('('), 0),
{
    let token = name + seq!['('] + argument + seq![')'];
    assert(token.subrange(0, (name.len() + 1) as int) =~= name.push('('));
}

/// An operation with two arguments, written out, begins with its name and
/// a parenthesis.
pub proof fn lemma_pair_begins(name: Seq<char>, first: Seq<char>, second: Seq<char>)
    ensures
        occurs_at(
            name + seq!['('] + first + pair_separator() + second + seq![')'],
            name.push('('),
            0,
        ),
{
    let token = name + seq!['('] + first + pair_separator() + second + seq![')'];
    assert(token.subrange(0, (name.len() + 1) as int) =~= name.push('('));
}

/// An operation that is written out reads back as itself.
pub proof fn lemma_operation_reads_back(op: OperationView)
    requires
        reads_back(op),
    ensures
        token_operation(operation_text(op)) == Some(op),
{
    lemma_names();
    let token = operation_text(op);
    match op {
        OperationView::Root(root) => {
            assert(token.subrange(0, token.len() as int) =~= token);
            if root == Root::LOCATIONS {
                if occurs_at(token, "EPISODES"@, 0) {
                    lemma_occurrence(token, "EPISODES"@, 0, 0);
                }
            }
        },
        OperationView::Name(OperandView::Text(name)) => {
            lemma_single_begins("NAME"@, name);
            lemma_one_name(token, "NAME"@);
            lemma_single_reads_back("NAME"@, name);
        },
        OperationView::Page(OperandView::Number(n)) => {
            lemma_single_begins("PAGE"@, decimal(n as nat));
            lemma_one_name(token, "PAGE"@);
            assert(!occurs_at(token, "NAME"@.push('('), 0));
            lemma_decimal_is_plain(n as nat);
            lemma_single_reads_back("PAGE"@, decimal(n as nat));
            lemma_decimal_reads_back(n);
        },
        OperationView::Dimension(OperandView::Text(dimension)) => {
            lemma_single_begins("DIMENSION"@, dimension);
            lemma_one_name(token, "DIMENSION"@);
            assert(!occurs_at(token, "NAME"@.push('('), 0));
            assert(!occurs_at(token, "PAGE"@.push('('), 0));
            lemma_single_reads_back("DIMENSION"@, dimension);
        },
        OperationView::Contains(OperandView::Text(field), OperandView::Text(value)) => {
            lemma_pair_begins("CONTAINS"@, field, value);
            lemma_one_name(token, "CONTAINS"@);
            assert(!occurs_at(token, "NAME"@.push('('), 0));
            assert(!occurs_at(token, "PAGE"@.push('('), 0));
            assert(!occurs_at(token, "DIMENSION"@.push('('), 0));
            lemma_pair_reads_back("CONTAINS"@, field, value);
        },
        OperationView::Length(OperandView::Text(field), OperandView::Text(value)) => {
            lemma_pair_begins("LENGTH"@, field, value);
            lemma_one_name(token, "LENGTH"@);
            assert(!occurs_at(token, "NAME"@.push('('), 0));
            assert(!occurs_at(token, "PAGE"@.push('('), 0));
            assert(!occurs_at(token, "DIMENSION"@.push('('), 0));
            assert(!occurs_at(token, "CONTAINS"@.push('('), 0));
            lemma_pair_reads_back("LENGTH"@, field, value);
        },
        OperationView::Sort(OperandView::Text(direction), OperandView::Text(field)) => {
            lemma_pair_begins("SORT"@, direction, field);
            lemma_one_name(token, "SORT"@);
            assert(!occurs_at(token, "NAME"@.push('('), 0));
            assert(!occurs_at(token, "PAGE"@.push('('), 0));
            assert(!occurs_at(token, "DIMENSION"@.push('('), 0));
            assert(!occurs_at(token, "CONTAINS"@.push('('), 0));
            assert(!occurs_at(token, "LENGTH"@.push('('), 0));
            lemma_pair_reads_back("SORT"@, direction, field);
        },
        OperationView::Limit(OperandView::Number(n)) => {
            lemma_single_begins("LIMIT"@, decimal(n as nat));
            lemma_one_name(token, "LIMIT"@);
            assert(!occurs_at(token, "NAME"@.push('('), 0));
            assert(!occurs_at(token, "PAGE"@.push('('), 0));
            assert(!occurs_at(token, "DIMENSION"@.push('('), 0));
            assert(!occurs_at(token, "CONTAINS"@.push('('), 0));
            assert(!occurs_at(token, "LENGTH"@.push('('), 0));
            assert(!occurs_at(token, "SORT"@.push('('), 0));
            lemma_decimal_is_plain(n as nat);
            lemma_single_reads_back("LIMIT"@, decimal(n as nat));
            lemma_decimal_reads_back(n);
        },
        _ => {},
    }
}

/// Whether `part` keeps apart from a separator that follows it: the
/// separator stands at no place of the part, not even with its end in the
/// separator that follows.
pub open spec fn keeps_apart(part: Seq<char>, separator: Seq<char>) -> bool {
    forall|k: int| 0 <= k < part.len() ==> !occurs_at(part + separator, separator, k)
}

/// Two or more texts in a row are the first of them, the separator, and
/// the others in a row.
pub proof fn lemma_joined_first(parts: Seq<Seq<char>>, separator: Seq<char>)
    requires
        parts.len() >= 2,
    ensures
        joined(parts, separator) == parts[0] + separator + joined(parts.drop_first(), separator),
    decreases parts.len(),
{
    if parts.len() == 2 {
        assert(parts.drop_last() =~= seq![parts[0]]);
        assert(parts.drop_first() =~= seq![parts[1]]);
        assert(joined(seq![parts[0]], separator) == parts[0]);
        assert(joined(seq![parts[1]], separator) == parts[1]);
    } else {
        lemma_joined_first(parts.drop_last(), separator);
        assert(parts.drop_last().drop_first() =~= parts.drop_first().drop_last());
        assert(parts.drop_first().last() == parts.last());
        assert(parts.drop_last()[0] == parts[0]);
        let inner = joined(parts.drop_last().drop_first(), separator);
        assert((parts[0] + separator + inner) + separator + parts.last() =~= parts[0] + separator
            + (inner + separator + parts.last()));
    }
}

/// Texts that keep apart from the separator, put in a row with the
/// separator between them, split into the same texts.
pub proof fn lemma_split_from_joined(
    text: Seq<char>,
    separator: Seq<char>,
    from: int,
    parts: Seq<Seq<char>>,
)
    requires
        separator.len() > 0,
        parts.len() > 0,
        0 <= from <= text.len(),
        text.skip(from) == joined(parts, separator),
        forall|i: int| 0 <= i < parts.len() ==> keeps_apart(#[trigger] parts[i], separator),
    ensures
        split_from(text, separator, from) == parts,
    decreases parts.len(),
{
    let first = parts[0];
    let rest = text.skip(from);
    assert(keeps_apart(first, separator));
    if parts.len() == 1 {
        assert(rest == first);
        assert(text.len() - from == rest.len());
        assert forall|k: int| from <= k implies !occurs_at(text, separator, k) by {
            if occurs_at(text, separator, k) {
                assert forall|j: int| 0 <= j < separator.len() implies (first + separator)[k - from
                    + j] == separator[j] by {
                    lemma_occurrence(text, separator, k, j);
                    assert(text[k + j] == rest[k - from + j]);
                }
                lemma_occurs_at(first + separator, separator, k - from);
            }
        }
        lemma_position_missing(text, separator, from);
        assert(text.subrange(from, text.len() as int) =~= first);
        assert(parts =~= seq![first]);
    } else {
        lemma_joined_first(parts, separator);
        let others = parts.drop_first();
        let at = from + first.len();
        assert(rest == first + separator + joined(others, separator));
        assert(text.len() - from == rest.len());
        assert(text.subrange(at, at + separator.len()) =~= separator) by {
            assert forall|j: int| 0 <= j < separator.len() implies text[at + j] == separator[j] by {
                assert(text[at + j] == rest[first.len() + j]);
            }
        }
        assert forall|k: int| from <= k < at implies !occurs_at(text, separator, k) by {
            if occurs_at(text, separator, k) {
                assert forall|j: int| 0 <= j < separator.len() implies (first + separator)[k - from
                    + j] == separator[j] by {
                    lemma_occurrence(text, separator, k, j);
                    assert(text[k + j] == rest[k - from + j]);
                }
                lemma_occurs_at(first + separator, separator, k - from);
            }
        }
        lemma_position_found(text, separator, from, at);
        assert(text.subrange(from, at) =~= first);
        assert(text.skip(at + separator.len()) =~= joined(others, separator)) by {
            assert(text.skip(at + separator.len()) =~= rest.skip(
                (first.len() + separator.len()) as int,
            ));
        }
        assert forall|i: int| 0 <= i < others.len() implies keeps_apart(
            #[trigger] others[i],
            separator,
        ) by {
            assert(others[i] == parts[i + 1]);
        }
        lemma_split_from_joined(text, separator, at + separator.len(), others);
        assert(parts =~= seq![first] + others);
    }
}

/// An operation that reads back as itself keeps apart, written out, from
/// the pair of colons that follows it in a query.
pub proof fn lemma_operation_keeps_apart(op: OperationView)
    requires
        reads_back(op),
    ensures
        keeps_apart(operation_text(op), list_separator()),
{
    lemma_names();
    let separator = list_separator();
    let part = operation_text(op);
    assert forall|k: int| 0 <= k < part.len() implies !occurs_at(part + separator, separator, k) by {
        if occurs_at(part + separator, separator, k) {
            lemma_occurrence(part + separator, separator, k, 0);
            lemma_occurrence(part + separator, separator, k, 1);
            assert(part[k] == ':');
            match op {
                OperationView::Root(root) => {
                    assert(is_symbol(part[k]));
                },
                OperationView::Name(OperandView::Text(a)) => {
                    lemma_colon_in_single("NAME"@, a, k);
                },
                OperationView::Page(OperandView::Number(n)) => {
                    lemma_decimal_is_plain(n as nat);
                    lemma_colon_in_single("PAGE"@, decimal(n as nat), k);
                },
                OperationView::Dimension(OperandView::Text(a)) => {
                    lemma_colon_in_single("DIMENSION"@, a, k);
                },
                OperationView::Contains(OperandView::Text(a), OperandView::Text(b)) => {
                    lemma_colon_in_pair("CONTAINS"@, a, b, k);
                },
                OperationView::Length(OperandView::Text(a), OperandView::Text(b)) => {
                    lemma_colon_in_pair("LENGTH"@, a, b, k);
                },
                OperationView::Sort(OperandView::Text(a), OperandView::Text(b)) => {
                    lemma_colon_in_pair("SORT"@, a, b, k);
                },
                OperationView::Limit(OperandView::Number(n)) => {
                    lemma_decimal_is_plain(n as nat);
                    lemma_colon_in_single("LIMIT"@, decimal(n as nat), k);
                },
                _ => {},
            }
        }
    }
}

/// In an operation with one argument, no colon is followed by a colon.
pub proof fn lemma_colon_in_single(name: Seq<char>, argument: Seq<char>, k: int)
    requires
        is_name(name),
        !occurs_in(argument, list_separator()),
        0 <= k < (name + seq!['('] + argument + seq![')']).len(),
        (name + seq!['('] + argument + seq![')'])[k] == ':',
    ensures
        ((name + seq!['('] + argument + seq![')']) + list_separator())[k + 1] != ':',
{
    let part = name + seq!['('] + argument + seq![')'];
    let start = name.len() + 1;
    if k < name.len() {
        assert(is_symbol(name[k]));
    } else if start <= k < start + argument.len() {
        if k + 1 < start + argument.len() {
            if part[k + 1] == ':' {
                assert(argument.subrange(k - start, k - start + 2) =~= list_separator());
                lemma_occurs(argument, list_separator(), k - start);
            }
        }
    }
}

/// In an operation with two arguments, no colon is followed by a colon.
pub proof fn lemma_colon_in_pair(name: Seq<char>, first: Seq<char>, second: Seq<char>, k: int)
    requires
        is_name(name),
        !occurs_in(first, list_separator()),
        !occurs_in(second, list_separator()),
        0 <= k < (name + seq!['('] + first + pair_separator() + second + seq![')']).len(),
        (name + seq!['('] + first + pair_separator() + second + seq![')'])[k] == ':',
    ensures
        ((name + seq!['('] + first + pair_separator() + second + seq![')']) + list_separator())[k
            + 1] != ':',
{
    let part = name + seq!['('] + first + pair_separator() + second + seq![')'];
    let start = name.len() + 1;
    let middle = start + first.len() + 2;
    if k < name.len() {
        assert(is_symbol(name[k]));
    } else if start <= k < start + first.len() {
        if k + 1 < start + first.len() {
            if part[k + 1] == ':' {
                assert(first.subrange(k - start, k - start + 2) =~= list_separator());
                lemma_occurs(first, list_separator(), k - start);
            }
        }
    } else if middle <= k < middle + second.len() {
        if k + 1 < middle + second.len() {
            if part[k + 1] == ':' {
                assert(second.subrange(k - middle, k - middle + 2) =~= list_separator());
                lemma_occurs(second, list_separator(), k - middle);
            }
        }
    }
}

/// Tokens that each read as an operation read as those operations, in order.
pub proof fn lemma_tokens_read(tokens: Seq<Seq<char>>, ops: Seq<OperationView>)
    requires
        tokens.len() == ops.len(),
        forall|i: int| 0 <= i < tokens.len() ==> token_operation(#[trigger] tokens[i]) == Some(ops[i]),
    ensures
        tokens_operations(tokens) == Some(ops),
    decreases tokens.len(),
{
    if tokens.len() == 0 {
        assert(ops =~= Seq::empty());
    } else {
        assert forall|i: int| 0 <= i < tokens.drop_last().len() implies token_operation(
            #[trigger] tokens.drop_last()[i],
        ) == Some(ops.drop_last()[i]) by {
            assert(tokens.drop_last()[i] == tokens[i]);
        }
        lemma_tokens_read(tokens.drop_last(), ops.drop_last());
        assert(token_operation(tokens.last()) == Some(ops.last()));
        assert(ops =~= ops.drop_last().push(ops.last()));
    }
}

/// A query that is written out reads back as itself: the operations
/// that begin with the selection of a resource and each read back as
/// themselves are the operations that their text reads as.
pub proof fn lemma_query_reads_back(ops: Seq<OperationView>)
    requires
        ops.len() > 0,
        ops[0] is Root,
        forall|i: int| 0 <= i < ops.len() ==> reads_back(#[trigger] ops[i]),
    ensures
        query_operations(query_text(ops)) == Ok::<Seq<OperationView>, SyntaxFault>(ops),
{
    let separator = list_separator();
    let texts = ops.map_values(|op: OperationView| operation_text(op));
    let text = query_text(ops);
    assert forall|i: int| 0 <= i < texts.len() implies keeps_apart(#[trigger] texts[i], separator) by {
        assert(reads_back(ops[i]));
        lemma_operation_keeps_apart(ops[i]);
    }
    assert(text.skip(0) =~= text);
    lemma_split_from_joined(text, separator, 0, texts);
    assert(split_on(text, separator) == texts);
    assert forall|i: int| 0 <= i < texts.len() implies token_operation(#[trigger] texts[i]) == Some(
        ops[i],
    ) by {
        assert(reads_back(ops[i]));
        lemma_operation_reads_back(ops[i]);
    }
    lemma_tokens_read(texts, ops);
}

/// A text that is a query written out is written back as itself once it
/// is read.
pub proof fn lemma_read_query_writes_back(ops: Seq<OperationView>)
    requires
        ops.len() > 0,
        ops[0] is Root,
        forall|i: int| 0 <= i < ops.len() ==> reads_back(#[trigger] ops[i]),
    ensures
        match query_operations(query_text(ops)) {
            Ok(read) => query_text(read) == query_text(ops),
            Err(_) => false,
        },
{
    lemma_query_reads_back(ops);
}

} // verus!
