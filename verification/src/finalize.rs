//! Finalization: assembling stored chunks into the final file's bytes, in
//! ascending chunk order, and holding the result to the announced hash.
//!
//! Reading the chunk files, writing the final file and deleting the markers
//! are i/o and happen outside; this module guarantees that what is declared
//! a success is exactly the concatenation of the chunks in order, hashing to
//! the metadata's value.

use crate::hashing::{hash_matches, spec_content_hash};
use vstd::prelude::*;

verus! {

/// The concatenation of byte blocks, in order.
pub open spec fn spec_concat(chunks: Seq<Vec<u8>>) -> Seq<u8>
    decreases chunks.len(),
{
    if chunks.len() == 0 {
        Seq::empty()
    } else {
        spec_concat(chunks.drop_last()) + chunks.last()@
    }
}

/// Joins the chunks into the final file's bytes, first chunk first.
pub fn assemble_chunks(chunks: &Vec<Vec<u8>>) -> (out: Vec<u8>)
    ensures
        out@ == spec_concat(chunks@),
{
    let mut out: Vec<u8> = Vec::new();
    let mut i: usize = 0;
    proof {
        assert(chunks@.take(0) =~= Seq::<Vec<u8>>::empty());
    }
    while i < chunks.len()
        invariant
            i <= chunks@.len(),
            out@ == spec_concat(chunks@.take(i as int)),
        decreases chunks@.len() - i,
    {
        out.extend_from_slice(chunks[i].as_slice());
        proof {
            assert(chunks@.take(i + 1).drop_last() =~= chunks@.take(i as int));
            assert(chunks@.take(i + 1).last() == chunks@[i as int]);
        }
        i = i + 1;
    }
    proof {
        assert(chunks@.take(chunks@.len() as int) =~= chunks@);
    }
    out
}

/// The finalizer's core: joins the chunks in order and accepts the result
/// exactly when its lowercase-hex SHA-256 equals the announced hash. On a
/// mismatch nothing is handed back, and the final file must not appear.
pub fn assemble_and_check(chunks: &Vec<Vec<u8>>, expected_hex: &str) -> (r: Option<Vec<u8>>)
    ensures
        r matches Some(f) ==> f@ == spec_concat(chunks@) && spec_content_hash(f@)
            == expected_hex@,
        r is None <==> spec_content_hash(spec_concat(chunks@)) != expected_hex@,
{
    let assembled = assemble_chunks(chunks);
    if hash_matches(assembled.as_slice(), expected_hex) {
        Some(assembled)
    } else {
        None
    }
}

} // verus!
