//! A query: its operations, in order.

use crate::error::{QueryError, SyntaxFault};
use crate::query_language::grammar::{list_separator, list_separator_chars};
use crate::query_language::operation::{
    operation_text, token_operation, Operation, OperationEnum, OperationView,
};
use crate::rm_api::response::RMResponse;
use crate::text::{chars_of, join, joined, split, split_on, string_of, texts_of};
use vstd::prelude::*;
use vstd::std_specs::convert::FromSpecImpl;

verus! {

/// The operations of a query, in order.
#[derive(Debug, PartialEq)]
pub struct OperationList(pub Vec<Operation>);

impl View for OperationList {
    type V = Seq<OperationView>;

    open spec fn view(&self) -> Seq<OperationView> {
        self.0@.map_values(|op: Operation| op@)
    }
}

/// What turns a list of operations into an answer: the catalogue, which
/// answers the request that the operations shape, or an answer, on which the
/// remaining operations are carried out.
pub trait OperationListEvaluator {
    fn evaluate_op(&self, operation_list: &OperationList) -> Result<RMResponse, QueryError>;
}

/// The operations that the tokens read as, in order, or `None` where one
/// of the tokens reads as no operation.
pub open spec fn tokens_operations(tokens: Seq<Seq<char>>) -> Option<Seq<OperationView>>
    decreases tokens.len(),
{
    if tokens.len() == 0 {
        Some(Seq::empty())
    } else {
        match (tokens_operations(tokens.drop_last()), token_operation(tokens.last())) {
            (Some(ops), Some(op)) => Some(ops.push(op)),
            _ => None,
        }
    }
}

/// Whether the operations are those of a query: the first of them selects
/// a resource.
pub open spec fn begins_with_root(ops: Seq<OperationView>) -> bool {
    ops.len() > 0 && ops[0] is Root
}

/// The operations that `text` reads as. The text is split at each pair of
/// colons, and each piece is read as one operation, in order. The first piece
/// must read as the selection of a resource.
pub open spec fn query_operations(text: Seq<char>) -> Result<Seq<OperationView>, SyntaxFault> {
    let tokens = split_on(text, list_separator());
    if tokens.len() == 0 {
        Err(SyntaxFault::OperationNotFound)
    } else {
        match token_operation(tokens[0]) {
            None => Err(SyntaxFault::OperationNotFound),
            Some(first) => if !(first is Root) {
                Err(SyntaxFault::RootMissing)
            } else {
                match tokens_operations(tokens) {
                    Some(ops) => Ok(ops),
                    None => Err(SyntaxFault::OperationNotFound),
                }
            },
        }
    }
}

/// The operations as a query writes them: each as it is written, with a
/// pair of colons between each two.
pub open spec fn query_text(ops: Seq<OperationView>) -> Seq<char> {
    joined(ops.map_values(|op: OperationView| operation_text(op)), list_separator())
}

impl OperationList {
    /// Whether the list is that of a query: it begins with the selection
    /// of a resource.
    pub open spec fn well_formed(&self) -> bool {
        begins_with_root(self@)
    }

    /// The operations as a query writes them.
    pub fn to_string(&self) -> (r: String)
        ensures
            r@ == query_text(self@),
    {
        let ghost texts = self@.map_values(|op: OperationView| operation_text(op));
        let mut parts: Vec<Vec<char>> = Vec::new();
        let mut i: usize = 0;
        while i < self.0.len()
            invariant
                i <= self.0.len(),
                texts == self@.map_values(|op: OperationView| operation_text(op)),
                texts_of(parts@) == texts.take(i as int),
            decreases self.0.len() - i,
        {
            let ghost written = parts@;
            let part = self.0[i].to_chars();
            parts.push(part);
            assert(texts_of(parts@) =~= texts_of(written).push(part@));
            assert(texts.take(i + 1) =~= texts.take(i as int).push(texts[i as int]));
            i += 1;
        }
        assert(texts.take(self.0.len() as int) == texts);
        string_of(&join(&parts, &list_separator_chars()))
    }

    /// Reads a query. Fails where a piece of it reads as no operation, or
    /// the first piece as no selection of a resource; nothing is handed out then.
    pub fn parse_str(operation_list_string: &str) -> (r: Result<OperationList, QueryError>)
        ensures
            match r {
                Ok(list) => query_operations(operation_list_string@) == Ok::<
                    Seq<OperationView>,
                    SyntaxFault,
                >(list@) && list.well_formed(),
                Err(error) => match error {
                    QueryError::Syntax(fault) => query_operations(operation_list_string@) == Err::<
                        Seq<OperationView>,
                        SyntaxFault,
                    >(fault),
                    _ => false,
                },
            },
    {
        let tokens = split(&chars_of(operation_list_string), &list_separator_chars());
        let ghost texts = texts_of(tokens@);
        let mut operations: Vec<Operation> = Vec::new();
        let mut i: usize = 0;
        assert(texts.take(0) =~= Seq::empty());
        if tokens.len() == 0 {
            return Err(QueryError::Syntax(SyntaxFault::OperationNotFound));
        }
        while i < tokens.len()
            invariant
                i <= tokens.len(),
                tokens.len() > 0,
                texts == texts_of(tokens@),
                texts == split_on(operation_list_string@, list_separator()),
                operations.len() == i,
                tokens_operations(texts.take(i as int)) == Some(
                    operations@.map_values(|op: Operation| op@),
                ),
                i > 0 ==> token_operation(texts[0]) == Some(operations@[0]@) && operations@[0]@ is Root,
            decreases tokens.len() - i,
        {
            let ghost read = operations@;
            proof {
                assert(texts.take(i + 1).drop_last() == texts.take(i as int));
                assert(texts.take(i + 1).last() == tokens@[i as int]@);
            }
            match Operation::parse_chars(&tokens[i]) {
                Ok(op) => {
                    if i == 0 {
                        match &op.0 {
                            OperationEnum::Root(_) => {},
                            _ => {
                                return Err(QueryError::Syntax(SyntaxFault::RootMissing));
                            },
                        }
                    }
                    operations.push(op);
                    assert(operations@.map_values(|op: Operation| op@) =~= read.map_values(
                        |op: Operation| op@,
                    ).push(op@));
                },
                Err(error) => {
                    proof {
                        lemma_bad_token_lasts(texts, i + 1);
                    }
                    return Err(error);
                },
            }
            i += 1;
        }
        assert(texts.take(tokens.len() as int) == texts);
        Ok(OperationList(operations))
    }
}

/// Once a token has read as no operation, the tokens after it do not mend it.
pub proof fn lemma_bad_token_lasts(tokens: Seq<Seq<char>>, n: int)
    requires
        0 <= n <= tokens.len(),
        tokens_operations(tokens.take(n)) is None,
    ensures
        tokens_operations(tokens) is None,
    decreases tokens.len() - n,
{
    if n == tokens.len() {
        assert(tokens.take(n) == tokens);
    } else {
        assert(tokens.take(n + 1).drop_last() == tokens.take(n));
        lemma_bad_token_lasts(tokens, n + 1);
    }
}

impl From<OperationList> for String {
    fn from(operation_list: OperationList) -> (r: String)
        ensures
            r@ == query_text(operation_list@),
    {
        operation_list.to_string()
    }
}

impl FromSpecImpl<OperationList> for String {
    open spec fn obeys_from_spec() -> bool {
        false
    }

    open spec fn from_spec(operation_list: OperationList) -> String {
        arbitrary()
    }
}

impl std::ops::Deref for OperationList {
    type Target = Vec<Operation>;

    fn deref(&self) -> (r: &Vec<Operation>)
        ensures
            *r == self.0,
    {
        &self.0
    }
}

} // verus!
