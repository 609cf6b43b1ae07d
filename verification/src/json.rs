//! Encoding of a store snapshot as self-describing structured text, done by
//! serde_json behind a trusted boundary.

use vstd::prelude::*;
use crate::store::entries_map;

verus! {

/// The encoded text of a key-to-value mapping. What the text is exactly is
/// left unstated; it is a function of the mapping alone, since the entries
/// are emitted in sorted key order.
pub uninterp spec fn json_of(m: Map<Seq<char>, Seq<char>>) -> Seq<char>;

/// Relies on serde_json::to_string over a std::collections::BTreeMap of
/// strings: the entries are emitted in sorted key order, so the text depends
/// on the denoted mapping alone, and the empty mapping encodes as "{}".
/// Its documented failure cases — a failing Serialize impl, a map with
/// non-string keys — cannot arise for string keys and values written to a
/// byte vector, so the call always succeeds.
#[verifier::external_body]
pub(crate) fn snapshot_to_json(entries: &Vec<(String, String)>) -> (r: Result<String, String>)
    ensures
        r is Ok,
        r matches Ok(s) ==> s@ == json_of(entries_map(entries@)) && (entries_map(entries@)
            == Map::<Seq<char>, Seq<char>>::empty() ==> s@ == "{}"@),
{
    let m: std::collections::BTreeMap<String, String> = entries.iter().cloned().collect();
    serde_json::to_string(&m).map_err(|e| format!("JSON serialization error: {}", e))
}

} // verus!
