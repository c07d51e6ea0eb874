//! The word hash behind the embeddings of semantic memory.

use vstd::prelude::*;
use vstd::string::StringSliceAdditionalSpecFns;

verus! {

/// The polynomial hash of a byte string: each byte folded in as `hash * 31 + byte`,
/// wrapping modulo 2^64.
pub open spec fn hash_bytes(b: Seq<u8>) -> u64
    decreases b.len(),
{
    if b.len() == 0 {
        0
    } else {
        ((hash_bytes(b.drop_last()) as nat * 31 + b.last() as nat) % 0x1_0000_0000_0000_0000) as u64
    }
}

/// Builds embedding vectors from text.
pub struct EmbeddingGenerator;

impl EmbeddingGenerator {
    /// The hash of the UTF-8 bytes of `word`.
    pub fn hash_word(word: &str) -> (h: u64)
        ensures
            h == hash_bytes(word.spec_bytes()),
    {
        let bytes = word.as_bytes();
        let mut hash: u64 = 0;
        let mut i: usize = 0;
        while i < bytes.len()
            invariant
                i <= bytes@.len(),
                bytes@ == word.spec_bytes(),
                hash == hash_bytes(bytes@.subrange(0, i as int)),
            decreases bytes.len() - i,
        {
            let next: u128 = ((hash as u128) * 31 + (bytes[i] as u128)) % 0x1_0000_0000_0000_0000;
            proof {
                let pre = bytes@.subrange(0, i + 1);
                assert(pre.drop_last() =~= bytes@.subrange(0, i as int));
                assert(pre.last() == bytes@[i as int]);
            }
            hash = next as u64;
            i = i + 1;
        }
        assert(bytes@.subrange(0, bytes@.len() as int) =~= bytes@);
        hash
    }
}

} // verus!
