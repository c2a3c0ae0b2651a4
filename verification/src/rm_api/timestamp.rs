//! Points in time, as the records of the catalogue write them.

use vstd::prelude::*;

verus! {

/// The point in time that `text` names in the notation of RFC 3339, as
/// the `chrono` crate reads that notation: the whole seconds since the start
/// of 1970 in universal time, and the nanoseconds past them. `None` where
/// `text` names no point in time.
pub uninterp spec fn rfc3339_instant(text: Seq<char>) -> Option<(i64, u32)>;

/// Reads a timestamp with `chrono::DateTime::parse_from_rfc3339` and hands
/// out what chrono orders two such values by: `timestamp()` and
/// `timestamp_subsec_nanos()` of the value read. Nothing is proved of the
/// reading itself; the contract only gives its result a name.
#[verifier::external_body]
pub(crate) fn read_instant(text: &str) -> (r: Option<(i64, u32)>)
    ensures
        r == rfc3339_instant(text@),
{
    match chrono::DateTime::parse_from_rfc3339(text) {
        Ok(moment) => Some((moment.timestamp(), moment.timestamp_subsec_nanos())),
        Err(_) => None,
    }
}

} // verus!
