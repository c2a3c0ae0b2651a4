//! What holds of a query as a whole.

use crate::error::QueryError;
use crate::query_language::operation_list::OperationList;
use crate::query_language::reading_back::{lemma_query_reads_back, reads_back};
use crate::rm_api::response::RMResponse;
use crate::Outcome;
use vstd::prelude::*;

verus! {

/// What a step on an answer reports: the answer after it, or its failure.
pub open spec fn answer_of(result: Result<RMResponse, QueryError>) -> Outcome {
    match result {
        Ok(response) => Outcome::Page(response@),
        Err(error) => Outcome::Failure(error@),
    }
}

/// Reading a text as a query gives the same every time: two readings of
/// one text both fail, for the same reason, or both give the same operations.
pub proof fn lemma_reading_repeats(
    input: &str,
    first: Result<OperationList, QueryError>,
    second: Result<OperationList, QueryError>,
)
    requires
        call_ensures(OperationList::parse_str, (input,), first),
        call_ensures(OperationList::parse_str, (input,), second),
    ensures
        match (first, second) {
            (Ok(one), Ok(other)) => one@ == other@,
            (Err(one), Err(other)) => one@ == other@,
            _ => false,
        },
{
}

/// Carrying out a query on a page gives the same every time: two runs of
/// the same operations on the same answer both fail, or both give the same
/// answer.
pub proof fn lemma_evaluation_repeats(
    response: RMResponse,
    operation_list: OperationList,
    other_list: OperationList,
    first: Result<RMResponse, QueryError>,
    second: Result<RMResponse, QueryError>,
)
    requires
        operation_list@ == other_list@,
        call_ensures(RMResponse::evaluate_op, (&response, &operation_list), first),
        call_ensures(RMResponse::evaluate_op, (&response, &other_list), second),
    ensures
        answer_of(first) == answer_of(second),
{
}

/// Reading inverts writing: a query whose operations each read back as
/// themselves is written as a text that reads as the same query.
pub proof fn lemma_written_query_reads_back(
    operation_list: OperationList,
    written: String,
    text: &str,
    read: Result<OperationList, QueryError>,
)
    requires
        operation_list.well_formed(),
        forall|i: int| 0 <= i < operation_list@.len() ==> reads_back(#[trigger] operation_list@[i]),
        call_ensures(OperationList::to_string, (&operation_list,), written),
        text@ == written@,
        call_ensures(OperationList::parse_str, (text,), read),
    ensures
        read is Ok,
        read->Ok_0@ == operation_list@,
{
    lemma_query_reads_back(operation_list@);
}

} // verus!
