//! Content hashes.
use vstd::prelude::*;

verus! {

/// The hexadecimal BLAKE3 hash of a text's UTF-8 bytes, as `blake3::hash` and
/// `to_hex` give it.
pub uninterp spec fn blake3_hex(text: Seq<char>) -> Seq<char>;

/// `blake3::hash` of the text's bytes, written by `Hash::to_hex`: sixty-four
/// digits that depend on the text alone.
#[verifier::external_body]
fn hash_hex(text: &str) -> (r: String)
    ensures
        r@ == blake3_hex(text@),
        r@.len() == 64,
{
    blake3::hash(text.as_bytes()).to_hex().to_string()
}

/// The hash by which a changed content is noticed.
pub fn content_hash(text: &str) -> (r: String)
    ensures
        r@ == blake3_hex(text@),
        r@.len() == 64,
{
    hash_hex(text)
}

} // verus!
