//! One step of a query.

use crate::decimal::{number_or_zero, parse_number};
use crate::error::{QueryError, SyntaxFault};
use crate::query_language::grammar::{
    pair_arguments, pair_separator, pair_separator_chars, read_pair, read_single, single_argument,
    strip, stripped,
};
use crate::query_language::operand::{Operand, OperandEnum, OperandView};
use crate::text::{chars_of, extend_chars, matches_at, occurs_at, string_of};
use vstd::prelude::*;
use vstd::std_specs::convert::FromSpecImpl;

verus! {

/// The resource that a query selects.
#[derive(Debug, Clone, Copy, PartialEq, Eq, Structural)]
pub enum Root {
    CHARACTERS,
    EPISODES,
    LOCATIONS,
}

/// One step of a query, with the values it carries.
#[derive(Debug, PartialEq)]
pub enum OperationEnum {
    /// Selects the resource. Every query starts with it.
    Root(Root),
    /// Asks the catalogue for records with this name.
    Name(Operand),
    /// Asks the catalogue for this page.
    Page(Operand),
    /// Asks the catalogue for places of this dimension.
    Dimension(Operand),
    /// Keeps the records whose field, named first, contains the text given second.
    Contains(Operand, Operand),
    /// Reserved. Changes nothing.
    Length(Operand, Operand),
    /// Reserved. Changes nothing.
    Index(Operand),
    /// Sorts the records in the direction given first by the field named second.
    Sort(Operand, Operand),
    /// Keeps the first records, as many as given.
    Limit(Operand),
    /// Reserved. Changes nothing.
    Pick(Operand),
}

/// One step of a query.
#[derive(Debug, PartialEq)]
pub struct Operation(pub OperationEnum);

/// The mathematical value of an `Operation`.
pub enum OperationView {
    Root(Root),
    Name(OperandView),
    Page(OperandView),
    Dimension(OperandView),
    Contains(OperandView, OperandView),
    Length(OperandView, OperandView),
    Index(OperandView),
    Sort(OperandView, OperandView),
    Limit(OperandView),
    Pick(OperandView),
}

impl View for Operation {
    type V = OperationView;

    open spec fn view(&self) -> OperationView {
        match self.0 {
            OperationEnum::Root(root) => OperationView::Root(root),
            OperationEnum::Name(a) => OperationView::Name(a@),
            OperationEnum::Page(a) => OperationView::Page(a@),
            OperationEnum::Dimension(a) => OperationView::Dimension(a@),
            OperationEnum::Contains(a, b) => OperationView::Contains(a@, b@),
            OperationEnum::Length(a, b) => OperationView::Length(a@, b@),
            OperationEnum::Index(a) => OperationView::Index(a@),
            OperationEnum::Sort(a, b) => OperationView::Sort(a@, b@),
            OperationEnum::Limit(a) => OperationView::Limit(a@),
            OperationEnum::Pick(a) => OperationView::Pick(a@),
        }
    }
}

/// The first of two readings that gives an operation.
pub open spec fn or_else(first: Option<OperationView>, second: Option<OperationView>) -> Option<
    OperationView,
> {
    if first is Some {
        first
    } else {
        second
    }
}

/// The resource that `token` begins with the word of.
pub open spec fn root_token(token: Seq<char>) -> Option<OperationView> {
    if occurs_at(token, "CHARACTERS"@, 0) {
        Some(OperationView::Root(Root::CHARACTERS))
    } else if occurs_at(token, "EPISODES"@, 0) {
        Some(OperationView::Root(Root::EPISODES))
    } else if occurs_at(token, "LOCATIONS"@, 0) {
        Some(OperationView::Root(Root::LOCATIONS))
    } else {
        None
    }
}

/// A text as an operand.
pub open spec fn text_operand(argument: Option<Seq<char>>) -> Option<OperandView> {
    match argument {
        Some(text) => Some(OperandView::Text(text)),
        None => None,
    }
}

/// A text read as a number, as an operand: the number it reads as, and
/// zero where it reads as none.
pub open spec fn number_operand(argument: Option<Seq<char>>) -> Option<OperandView> {
    match argument {
        Some(text) => Some(OperandView::Number(number_or_zero(text))),
        None => None,
    }
}

/// Two texts as two operands.
pub open spec fn text_operands(arguments: Option<(Seq<char>, Seq<char>)>) -> Option<
    (OperandView, OperandView),
> {
    match arguments {
        Some((first, second)) => Some((OperandView::Text(first), OperandView::Text(second))),
        None => None,
    }
}

/// The operation that `token` reads as. A token reads as the resource
/// whose word it begins with, or as the operation whose name, parentheses and
/// arguments it begins with; what follows in the token is passed over. The
/// arguments of `PAGE` and `LIMIT` are read as numbers, all others are texts.
/// `None` where the token begins with none of these.
pub open spec fn token_operation(token: Seq<char>) -> Option<OperationView> {
    or_else(
        root_token(token),
        or_else(
            match text_operand(single_argument(token, "NAME"@)) {
                Some(name) => Some(OperationView::Name(name)),
                None => None,
            },
            or_else(
                match number_operand(single_argument(token, "PAGE"@)) {
                    Some(page) => Some(OperationView::Page(page)),
                    None => None,
                },
                or_else(
                    match text_operand(single_argument(token, "DIMENSION"@)) {
                        Some(dimension) => Some(OperationView::Dimension(dimension)),
                        None => None,
                    },
                    or_else(
                        match text_operands(pair_arguments(token, "CONTAINS"@)) {
                            Some((field, value)) => Some(OperationView::Contains(field, value)),
                            None => None,
                        },
                        or_else(
                            match text_operands(pair_arguments(token, "LENGTH"@)) {
                                Some((field, value)) => Some(OperationView::Length(field, value)),
                                None => None,
                            },
                            or_else(
                                match text_operands(pair_arguments(token, "SORT"@)) {
                                    Some((direction, field)) => Some(
                                        OperationView::Sort(direction, field),
                                    ),
                                    None => None,
                                },
                                match number_operand(single_argument(token, "LIMIT"@)) {
                                    Some(count) => Some(OperationView::Limit(count)),
                                    None => None,
                                },
                            ),
                        ),
                    ),
                ),
            ),
        ),
    )
}

/// The word of a resource.
pub open spec fn root_word(root: Root) -> Seq<char> {
    match root {
        Root::CHARACTERS => "CHARACTERS"@,
        Root::EPISODES => "EPISODES"@,
        Root::LOCATIONS => "LOCATIONS"@,
    }
}

/// An operation written with one argument: its name and the argument in
/// parentheses.
pub open spec fn single_text(name: Seq<char>, argument: OperandView) -> Seq<char> {
    name + seq!['('] + argument.text() + seq![')']
}

/// An operation written with two arguments: its name and, in parentheses,
/// the arguments with a comma and a space between them.
pub open spec fn pair_text(name: Seq<char>, first: OperandView, second: OperandView) -> Seq<char> {
    name + seq!['('] + first.text() + pair_separator() + second.text() + seq![')']
}

/// The operation as a query writes it.
pub open spec fn operation_text(op: OperationView) -> Seq<char> {
    match op {
        OperationView::Root(root) => root_word(root),
        OperationView::Name(a) => single_text("NAME"@, a),
        OperationView::Page(a) => single_text("PAGE"@, a),
        OperationView::Dimension(a) => single_text("DIMENSION"@, a),
        OperationView::Contains(a, b) => pair_text("CONTAINS"@, a, b),
        OperationView::Length(a, b) => pair_text("LENGTH"@, a, b),
        OperationView::Index(a) => single_text("INDEX"@, a),
        OperationView::Sort(a, b) => pair_text("SORT"@, a, b),
        OperationView::Limit(a) => single_text("LIMIT"@, a),
        OperationView::Pick(a) => single_text("PICK"@, a),
    }
}

/// Writes an operation with one argument.
fn write_single(name: &str, argument: &Operand) -> (r: Vec<char>)
    ensures
        r@ == single_text(name@, argument@),
{
    let mut r = chars_of(name);
    r.push('(');
    extend_chars(&mut r, &argument.to_chars());
    r.push(')');
    assert(r@ =~= single_text(name@, argument@));
    r
}

/// Writes an operation with two arguments.
fn write_pair(name: &str, first: &Operand, second: &Operand) -> (r: Vec<char>)
    ensures
        r@ == pair_text(name@, first@, second@),
{
    let mut r = chars_of(name);
    r.push('(');
    extend_chars(&mut r, &first.to_chars());
    extend_chars(&mut r, &pair_separator_chars());
    extend_chars(&mut r, &second.to_chars());
    r.push(')');
    assert(r@ =~= pair_text(name@, first@, second@));
    r
}

/// Reads the word of a resource from the start of `token`.
fn read_root(token: &Vec<char>) -> (r: Option<Operation>)
    ensures
        match r {
            Some(op) => root_token(token@) == Some(op@),
            None => root_token(token@) is None,
        },
{
    if matches_at(token, &chars_of("CHARACTERS"), 0) {
        Some(Operation(OperationEnum::Root(Root::CHARACTERS)))
    } else if matches_at(token, &chars_of("EPISODES"), 0) {
        Some(Operation(OperationEnum::Root(Root::EPISODES)))
    } else if matches_at(token, &chars_of("LOCATIONS"), 0) {
        Some(Operation(OperationEnum::Root(Root::LOCATIONS)))
    } else {
        None
    }
}

/// Reads a text argument of the operation `name` from the start of `token`.
fn read_text(token: &Vec<char>, name: &str) -> (r: Option<Operand>)
    ensures
        match r {
            Some(operand) => text_operand(single_argument(token@, name@)) == Some(operand@),
            None => text_operand(single_argument(token@, name@)) is None,
        },
{
    match read_single(token, &chars_of(name)) {
        Some(argument) => Some(Operand(OperandEnum::String(string_of(&argument)))),
        None => None,
    }
}

/// Reads a number argument of the operation `name` from the start of `token`.
fn read_number(token: &Vec<char>, name: &str) -> (r: Option<Operand>)
    ensures
        match r {
            Some(operand) => number_operand(single_argument(token@, name@)) == Some(operand@),
            None => number_operand(single_argument(token@, name@)) is None,
        },
{
    match read_single(token, &chars_of(name)) {
        Some(argument) => {
            let number = match parse_number(&argument) {
                Some(n) => n,
                None => 0,
            };
            Some(Operand(OperandEnum::Number(number)))
        },
        None => None,
    }
}

/// Reads two text arguments of the operation `name` from the start of `token`.
fn read_texts(token: &Vec<char>, name: &str) -> (r: Option<(Operand, Operand)>)
    ensures
        match r {
            Some((first, second)) => text_operands(pair_arguments(token@, name@)) == Some(
                (first@, second@),
            ),
            None => text_operands(pair_arguments(token@, name@)) is None,
        },
{
    match read_pair(token, &chars_of(name)) {
        Some((first, second)) => Some(
            (
                Operand(OperandEnum::String(string_of(&first))),
                Operand(OperandEnum::String(string_of(&second))),
            ),
        ),
        None => None,
    }
}

impl Operation {
    /// What is left of `string` once the `operation_name` that it begins
    /// with and every parenthesis are taken out of it.
    pub fn remove_symbols(string: &str, operation_name: &str) -> (r: String)
        ensures
            r@ == stripped(string@, operation_name@),
    {
        string_of(&strip(&chars_of(string), &chars_of(operation_name)))
    }

    /// The operation as a query writes it.
    pub fn to_chars(&self) -> (r: Vec<char>)
        ensures
            r@ == operation_text(self@),
    {
        match &self.0 {
            OperationEnum::Root(root) => match root {
                Root::CHARACTERS => chars_of("CHARACTERS"),
                Root::EPISODES => chars_of("EPISODES"),
                Root::LOCATIONS => chars_of("LOCATIONS"),
            },
            OperationEnum::Name(a) => write_single("NAME", a),
            OperationEnum::Page(a) => write_single("PAGE", a),
            OperationEnum::Dimension(a) => write_single("DIMENSION", a),
            OperationEnum::Contains(a, b) => write_pair("CONTAINS", a, b),
            OperationEnum::Length(a, b) => write_pair("LENGTH", a, b),
            OperationEnum::Index(a) => write_single("INDEX", a),
            OperationEnum::Sort(a, b) => write_pair("SORT", a, b),
            OperationEnum::Limit(a) => write_single("LIMIT", a),
            OperationEnum::Pick(a) => write_single("PICK", a),
        }
    }

    /// Reads one token of a query.
    pub fn parse_chars(token: &Vec<char>) -> (r: Result<Operation, QueryError>)
        ensures
            match r {
                Ok(op) => token_operation(token@) == Some(op@),
                Err(error) => token_operation(token@) is None && error == QueryError::Syntax(
                    SyntaxFault::OperationNotFound,
                ),
            },
    {
        if let Some(op) = read_root(token) {
            return Ok(op);
        }
        if let Some(name) = read_text(token, "NAME") {
            return Ok(Operation(OperationEnum::Name(name)));
        }
        if let Some(page) = read_number(token, "PAGE") {
            return Ok(Operation(OperationEnum::Page(page)));
        }
        if let Some(dimension) = read_text(token, "DIMENSION") {
            return Ok(Operation(OperationEnum::Dimension(dimension)));
        }
        if let Some((field, value)) = read_texts(token, "CONTAINS") {
            return Ok(Operation(OperationEnum::Contains(field, value)));
        }
        if let Some((field, value)) = read_texts(token, "LENGTH") {
            return Ok(Operation(OperationEnum::Length(field, value)));
        }
        if let Some((direction, field)) = read_texts(token, "SORT") {
            return Ok(Operation(OperationEnum::Sort(direction, field)));
        }
        if let Some(count) = read_number(token, "LIMIT") {
            return Ok(Operation(OperationEnum::Limit(count)));
        }
        Err(QueryError::Syntax(SyntaxFault::OperationNotFound))
    }

    /// Reads one token of a query: the word of a resource, or an operation
    /// with its arguments. Fails where the token has the form of neither.
    pub fn parse_str(operation_string: &str) -> (r: Result<Operation, QueryError>)
        ensures
            match r {
                Ok(op) => token_operation(operation_string@) == Some(op@),
                Err(error) => token_operation(operation_string@) is None && error
                    == QueryError::Syntax(SyntaxFault::OperationNotFound),
            },
    {
        Self::parse_chars(&chars_of(operation_string))
    }
}

impl From<Operation> for String {
    fn from(operation: Operation) -> (r: String)
        ensures
            r@ == operation_text(operation@),
    {
        string_of(&operation.to_chars())
    }
}

impl FromSpecImpl<Operation> for String {
    open spec fn obeys_from_spec() -> bool {
        false
    }

    open spec fn from_spec(operation: Operation) -> String {
        arbitrary()
    }
}

impl From<&Operation> for String {
    fn from(operation: &Operation) -> (r: String)
        ensures
            r@ == operation_text(operation@),
    {
        string_of(&operation.to_chars())
    }
}

impl FromSpecImpl<&Operation> for String {
    open spec fn obeys_from_spec() -> bool {
        false
    }

    open spec fn from_spec(operation: &Operation) -> String {
        arbitrary()
    }
}

impl std::ops::Deref for Operation {
    type Target = OperationEnum;

    fn deref(&self) -> (r: &OperationEnum)
        ensures
            *r == self.0,
    {
        &self.0
    }
}

} // verus!
