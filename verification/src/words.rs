//! Machine words as they lie in memory: eight bytes each, lowest byte first.

use vstd::bytes::{
    lemma_auto_spec_u64_to_from_le_bytes, spec_u64_from_le_bytes, spec_u64_to_le_bytes,
    u64_from_le_bytes, u64_to_le_bytes,
};
use vstd::prelude::*;

verus! {

/// Number of bytes in a machine word.
pub const WORD_SIZE: usize = 8;

/// The eight bytes that hold the word `w` in memory, lowest byte first.
pub open spec fn word_bytes(w: usize) -> Seq<u8> {
    spec_u64_to_le_bytes(w as u64)
}

/// The word that the eight bytes of `bytes` from position `8 * k` on hold.
pub open spec fn word_at(bytes: Seq<u8>, k: int) -> usize {
    spec_u64_from_le_bytes(bytes.subrange(8 * k, 8 * k + 8)) as usize
}

/// The eight bytes that hold the word `w` in memory.
pub fn write_word(w: usize) -> (out: Vec<u8>)
    ensures
        out@ == word_bytes(w),
        out@.len() == WORD_SIZE,
{
    u64_to_le_bytes(w as u64)
}

/// Reads word number `k` of `bytes`.
pub fn read_word(bytes: &[u8], k: usize) -> (w: usize)
    requires
        8 * k + 8 <= bytes@.len(),
    ensures
        w == word_at(bytes@, k as int),
{
    let len: usize = bytes.len();
    assert(8 * k + 8 <= len);
    let part: &[u8] = vstd::slice::slice_subrange(bytes, 8 * k, 8 * k + 8);
    let w: u64 = u64_from_le_bytes(part);
    #[verifier::truncate]
    (w as usize)
}

/// A word is read back unchanged from the bytes that hold it, wherever they
/// lie in a longer run of bytes.
pub proof fn lemma_word_round_trip(bytes: Seq<u8>, k: int, w: usize)
    requires
        0 <= k,
        8 * k + 8 <= bytes.len(),
        bytes.subrange(8 * k, 8 * k + 8) == word_bytes(w),
    ensures
        word_at(bytes, k) == w,
{
    lemma_auto_spec_u64_to_from_le_bytes();
    assert((w as u64) as usize == w);
}

/// A word takes eight bytes.
pub proof fn lemma_word_bytes_len(w: usize)
    ensures
        word_bytes(w).len() == WORD_SIZE,
{
    lemma_auto_spec_u64_to_from_le_bytes();
}

} // verus!
