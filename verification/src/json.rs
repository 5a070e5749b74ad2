//! Validity of the self-describing structured-value encoding that values
//! cross the wire in. The store never interprets value contents, so the
//! library carries values as their encoded text and only ever asks whether a
//! text is well-formed.

use vstd::prelude::*;

verus! {

/// Whether a text is the well-formed encoding of one structured value
/// (object, array, string, number, boolean or null). Names the verdict of
/// `serde_json::from_str::<serde_json::Value>`, which depends on the text
/// alone.
pub uninterp spec fn is_json(s: Seq<char>) -> bool;

/// Relies on serde_json::from_str::<serde_json::Value>: whether the text
/// parses as one structured value.
#[verifier::external_body]
pub(crate) fn json_text_valid(s: &str) -> (r: bool)
    ensures
        r == is_json(s@),
{
    serde_json::from_str::<serde_json::Value>(s).is_ok()
}

} // verus!
