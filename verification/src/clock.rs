//! RFC 3339 timestamps, read through the `chrono` crate.

use vstd::prelude::*;

verus! {

/// The Unix time in milliseconds that an RFC 3339 timestamp denotes, or `None`
/// when the text is not a valid RFC 3339 timestamp (as `chrono` parses it).
pub uninterp spec fn spec_rfc3339_millis(text: Seq<char>) -> Option<i64>;

/// Parse an RFC 3339 timestamp (`chrono::DateTime::parse_from_rfc3339`) and
/// express it as Unix milliseconds (`timestamp_millis`). `None` when chrono
/// refuses the text.
#[verifier::external_body]
pub(crate) fn rfc3339_millis(text: &str) -> (r: Option<i64>)
    ensures
        r == spec_rfc3339_millis(text@),
{
    match chrono::DateTime::parse_from_rfc3339(text) {
        Ok(t) => Some(t.timestamp_millis()),
        Err(_) => None,
    }
}

} // verus!
