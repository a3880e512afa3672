//! JSON texts.
use std::collections::BTreeMap;
use vstd::prelude::*;

use crate::text_map;

verus! {

/// The JSON that `serde_json::to_string` writes for strings, or the error's
/// message.
pub uninterp spec fn json_strings(v: Seq<Seq<char>>) -> Result<Seq<char>, Seq<char>>;

/// The JSON that `serde_json::to_string` writes for an object of strings, or the
/// error's message.
pub uninterp spec fn json_object(pairs: Seq<(Seq<char>, Seq<char>)>) -> Result<
    Seq<char>,
    Seq<char>,
>;

/// The pairs that `serde_json::from_str` reads from a text that writes an object
/// of strings, by their keys; or the error's message.
pub uninterp spec fn json_pairs(text: Seq<char>) -> Result<
    Seq<(Seq<char>, Seq<char>)>,
    Seq<char>,
>;

/// The texts of strings.
pub open spec fn string_texts(v: Seq<String>) -> Seq<Seq<char>> {
    v.map_values(|s: String| s@)
}

/// `serde_json::to_string` of a vector of strings: a text, or the message of the
/// error. Which, depends on the strings alone.
#[verifier::external_body]
pub(crate) fn write_strings(v: &Vec<String>) -> (r: Result<String, String>)
    ensures
        match r {
            Ok(t) => json_strings(string_texts(v@)) == Ok::<Seq<char>, Seq<char>>(t@),
            Err(e) => json_strings(string_texts(v@)) == Err::<Seq<char>, Seq<char>>(e@),
        },
{
    serde_json::to_string(v).map_err(|e| e.to_string())
}

/// `serde_json::to_string` of a map from strings to strings, ordered by its keys:
/// a text, or the message of the error. Which, depends on the pairs alone.
#[verifier::external_body]
pub(crate) fn write_pairs(pairs: &Vec<(String, String)>) -> (r: Result<String, String>)
    requires
        text_map::distinct_keys(text_map::pairs_texts(pairs@)),
    ensures
        match r {
            Ok(t) => json_object(text_map::pairs_texts(pairs@)) == Ok::<Seq<char>, Seq<char>>(t@),
            Err(e) => json_object(text_map::pairs_texts(pairs@)) == Err::<Seq<char>, Seq<char>>(
                e@,
            ),
        },
{
    let map: BTreeMap<&String, &String> = pairs.iter().map(|(k, v)| (k, v)).collect();
    serde_json::to_string(&map).map_err(|e| e.to_string())
}

/// `serde_json::from_str` of a text as a map from strings to strings: its pairs,
/// each key once, or the message of the error. Which, depends on the text alone.
/// What `serde_json::to_string` wrote for such a map is read as the same map.
#[verifier::external_body]
pub(crate) fn read_pairs(text: &str) -> (r: Result<Vec<(String, String)>, String>)
    ensures
        match r {
            Ok(v) => json_pairs(text@) == Ok::<Seq<(Seq<char>, Seq<char>)>, Seq<char>>(
                text_map::pairs_texts(v@),
            ),
            Err(e) => json_pairs(text@) == Err::<Seq<(Seq<char>, Seq<char>)>, Seq<char>>(e@),
        },
        r is Ok ==> text_map::distinct_keys(text_map::pairs_texts(r->Ok_0@)),
        forall|q: Seq<(Seq<char>, Seq<char>)>|
            (text_map::distinct_keys(q) && #[trigger] json_object(q) == Ok::<
                Seq<char>,
                Seq<char>,
            >(text@)) ==> (r is Ok && text_map::same_entries(
                text_map::pairs_texts(r->Ok_0@),
                q,
            )),
{
    match serde_json::from_str::<BTreeMap<String, String>>(text) {
        Ok(map) => Ok(map.into_iter().collect()),
        Err(e) => Err(e.to_string()),
    }
}

} // verus!
