//! The persisted form of the owner map: a JSON list of two-element lists of
//! address strings, stored under one key.

use vstd::prelude::*;
use crate::owners_cache::OwnersCacheError;

verus! {

/// The storage key under which the owner map is kept.
pub const STORAGE_OWNERS_CACHE: &'static str = "owners_cache";

#[verifier::external_type_specification]
#[verifier::external_body]
pub struct ExJsonError(serde_json::Error);

/// What `serde_json::from_str` reads from a text as a list of pairs of
/// strings: the pairs, or nothing where it refuses the text.
pub uninterp spec fn json_pairs(text: Seq<char>) -> Option<Seq<(Seq<char>, Seq<char>)>>;

/// The text that `serde_json::to_string` writes for a list of pairs of
/// strings.
pub uninterp spec fn pairs_json(pairs: Seq<(Seq<char>, Seq<char>)>) -> Seq<char>;

/// A list of pairs of strings as sequences of characters.
pub open spec fn text_pairs(pairs: Seq<(String, String)>) -> Seq<(Seq<char>, Seq<char>)> {
    pairs.map_values(|p: (String, String)| (p.0@, p.1@))
}

/// Calls `serde_json::from_str` for a `Vec<(String, String)>`. The contract
/// only names the outcome: the pairs that were read, or a refusal.
#[verifier::external_body]
fn json_to_pairs(text: &str) -> (r: Result<Vec<(String, String)>, serde_json::Error>)
    ensures
        match r {
            Ok(pairs) => json_pairs(text@) == Some(text_pairs(pairs@)),
            Err(_) => json_pairs(text@).is_none(),
        },
{
    serde_json::from_str::<Vec<(String, String)>>(text)
}

/// Calls `serde_json::to_string` on a `Vec<(String, String)>`. It writes into
/// a byte vector, which takes every write, and the value holds lists and
/// strings only, which serde never refuses: so the call succeeds, and the
/// contract names the text that it writes.
#[verifier::external_body]
fn pairs_to_json(pairs: &Vec<(String, String)>) -> (r: Result<String, serde_json::Error>)
    ensures
        r.is_ok(),
        r matches Ok(text) ==> text@ == pairs_json(text_pairs(pairs@)),
{
    serde_json::to_string(pairs)
}

/// Reads the persisted record as a list of pairs of address strings. A text
/// that is no such list is the error `InvalidRecord`.
pub fn parse_record(text: &str) -> (r: Result<Vec<(String, String)>, OwnersCacheError>)
    ensures
        match r {
            Ok(pairs) => json_pairs(text@) == Some(text_pairs(pairs@)),
            Err(e) => e == OwnersCacheError::InvalidRecord && json_pairs(text@).is_none(),
        },
{
    match json_to_pairs(text) {
        Ok(pairs) => Ok(pairs),
        Err(_) => Err(OwnersCacheError::InvalidRecord),
    }
}

/// Writes a list of pairs of address strings as the record to persist.
pub fn render_record(pairs: &Vec<(String, String)>) -> (r: String)
    ensures
        r@ == pairs_json(text_pairs(pairs@)),
{
    match pairs_to_json(pairs) {
        Ok(text) => text,
        Err(_) => vstd::pervasive::unreached(),
    }
}

} // verus!
