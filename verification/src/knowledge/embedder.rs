//! What the embedding model is given, and what is taken from it.
use vstd::prelude::*;

use crate::error::{joined, CoreError};

verus! {

/// The number of dimensions of an embedding.
pub const EMBEDDING_DIM: usize = 384;

/// A stored chunk as the model wants it.
pub open spec fn passage_form(chunk: Seq<char>) -> Seq<char> {
    "passage: "@ + chunk
}

/// A query as the model wants it.
pub open spec fn query_form(query: Seq<char>) -> Seq<char> {
    "query: "@ + query
}

/// The chunks as the model wants them.
pub fn passage_texts(chunks: &Vec<String>) -> (r: Vec<String>)
    ensures
        r@.len() == chunks@.len(),
        forall|i: int| 0 <= i < r@.len() ==> (#[trigger] r@[i])@ == passage_form(chunks@[i]@),
{
    let mut r: Vec<String> = Vec::new();
    for i in 0..chunks.len()
        invariant
            r@.len() == i,
            forall|k: int| 0 <= k < i ==> (#[trigger] r@[k])@ == passage_form(chunks@[k]@),
    {
        r.push(joined("passage: ", chunks[i].as_str()));
    }
    r
}

/// The query as the model wants it.
pub fn query_text(query: &str) -> (r: String)
    ensures
        r@ == query_form(query@),
{
    joined("query: ", query)
}

/// The last of the vectors that the model made for a query.
pub fn query_vector<T>(vectors: Vec<T>) -> (r: Result<T, CoreError>)
    ensures
        match r {
            Ok(v) => vectors@.len() > 0 && v == vectors@.last(),
            Err(e) => vectors@.len() == 0 && (e matches CoreError::Embedding(m) && m@
                == "empty embedding result"@),
        },
{
    let mut vectors = vectors;
    match vectors.pop() {
        Some(v) => Ok(v),
        None => Err(CoreError::Embedding("empty embedding result".to_owned())),
    }
}

} // verus!
