//! The ways in which a query can fail.

use crate::text::{chars_of, string_of};
use vstd::prelude::*;

verus! {

/// What is wrong with the text of a query.
#[derive(Debug, Clone, Copy, PartialEq, Eq, Structural)]
pub enum SyntaxFault {
    /// A token has the form of no operation.
    OperationNotFound,
    /// The first operation selects no resource.
    RootMissing,
}

/// Why a query gave no result.
#[derive(Debug, PartialEq, Eq)]
pub enum QueryError {
    /// The text of the query is no query.
    Syntax(SyntaxFault),
    /// The operations do not begin with the selection of a resource.
    UnsupportedRoot,
    /// The catalogue could not be read; the text says why.
    Backend(String),
    /// A step on the page that was read could not be carried out.
    Evaluation,
}

/// The mathematical value of a `QueryError`.
pub enum QueryErrorView {
    Syntax(SyntaxFault),
    UnsupportedRoot,
    Backend(Seq<char>),
    Evaluation,
}

impl View for QueryError {
    type V = QueryErrorView;

    open spec fn view(&self) -> QueryErrorView {
        match self {
            QueryError::Syntax(fault) => QueryErrorView::Syntax(*fault),
            QueryError::UnsupportedRoot => QueryErrorView::UnsupportedRoot,
            QueryError::Backend(reason) => QueryErrorView::Backend(reason@),
            QueryError::Evaluation => QueryErrorView::Evaluation,
        }
    }
}

impl QueryError {
    /// The words in which the error is reported.
    pub open spec fn spec_message(error: QueryErrorView) -> Seq<char> {
        match error {
            QueryErrorView::Syntax(SyntaxFault::OperationNotFound) => "Operation not found"@,
            QueryErrorView::Syntax(SyntaxFault::RootMissing) => "Root not found"@,
            QueryErrorView::UnsupportedRoot => "Invalid Root"@,
            QueryErrorView::Backend(reason) => reason,
            QueryErrorView::Evaluation => "Invalid timestamp"@,
        }
    }

    /// The words in which the error is reported.
    pub fn message(&self) -> (r: String)
        ensures
            r@ == Self::spec_message(self@),
    {
        match self {
            QueryError::Syntax(SyntaxFault::OperationNotFound) => string_of(
                &chars_of("Operation not found"),
            ),
            QueryError::Syntax(SyntaxFault::RootMissing) => string_of(&chars_of("Root not found")),
            QueryError::UnsupportedRoot => string_of(&chars_of("Invalid Root")),
            QueryError::Backend(reason) => reason.clone(),
            QueryError::Evaluation => string_of(&chars_of("Invalid timestamp")),
        }
    }
}

} // verus!
