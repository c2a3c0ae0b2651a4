//! A small query language over a catalogue of characters, episodes and
//! locations: a query selects a resource, shapes the request made of the
//! catalogue, and filters, sorts and shortens the page that comes back.

pub mod decimal;
pub mod error;
pub mod laws;
pub mod query_language;
pub mod rm_api;
pub mod sorting;
pub mod stable_order;
pub mod text;

use crate::error::{QueryError, QueryErrorView};
use crate::query_language::operation::OperationView;
use crate::query_language::operation_list::{query_operations, OperationList, OperationListEvaluator};
use crate::rm_api::response::{evaluated, RMResponse, RMResponseEnum, RMResponseView};
use vstd::prelude::*;

verus! {

/// The outcome of a query.
pub enum Outcome {
    /// The page that the query gives.
    Page(RMResponseView),
    /// The failure that ended the query.
    Failure(QueryErrorView),
}

/// The outcome of a query whose request was answered with `fetched`: the
/// failure of the request, where it failed; else the answer after the
/// operations, or the failure of the step that could not be carried out.
pub open spec fn completed(fetched: Result<RMResponse, QueryError>, ops: Seq<OperationView>)
    -> Outcome {
    match fetched {
        Err(error) => Outcome::Failure(error@),
        Ok(response) => match evaluated(response@, ops) {
            Some(after) => Outcome::Page(after),
            None => Outcome::Failure(QueryErrorView::Evaluation),
        },
    }
}

/// The outcome that a result reports.
pub open spec fn outcome_of(result: Result<RMResponseEnum, QueryError>) -> Outcome {
    match result {
        Ok(response) => Outcome::Page(response@),
        Err(error) => Outcome::Failure(error@),
    }
}

/// Finishes a query whose request was answered with `fetched`: carries
/// out the operations on the answer. A failed request stays the failure it is.
pub fn complete_query(fetched: Result<RMResponse, QueryError>, operation_list: &OperationList) -> (r:
    Result<RMResponseEnum, QueryError>)
    ensures
        outcome_of(r) == completed(fetched, operation_list@),
{
    match fetched {
        Err(error) => Err(error),
        Ok(response) => match response.evaluate_op(operation_list) {
            Ok(after) => Ok(after.0),
            Err(error) => Err(error),
        },
    }
}

/// Runs a query: reads `input`, lets `request` answer the request that
/// the operations shape, and carries out the operations on the answer. A text
/// that is no query fails before anything is asked of `request`.
pub fn query_api<T: OperationListEvaluator>(request: T, input: &str) -> (r: Result<
    RMResponseEnum,
    QueryError,
>)
    ensures
        match query_operations(input@) {
            Err(fault) => outcome_of(r) == Outcome::Failure(QueryErrorView::Syntax(fault)),
            Ok(ops) => exists|list: OperationList, fetched: Result<RMResponse, QueryError>|
                {
                    &&& list@ == ops
                    &&& call_ensures(T::evaluate_op, (&request, &list), fetched)
                    &&& outcome_of(r) == completed(fetched, ops)
                },
        },
{
    let operation_list = match OperationList::parse_str(input) {
        Ok(list) => list,
        Err(error) => {
            return Err(error);
        },
    };
    let fetched = request.evaluate_op(&operation_list);
    let ghost answer = fetched;
    let r = complete_query(fetched, &operation_list);
    assert(call_ensures(T::evaluate_op, (&request, &operation_list), answer));
    r
}

} // verus!
