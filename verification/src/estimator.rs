//! Cheap token estimator: estimated tokens are the UTF-8 byte length of the
//! text divided by four. The number feeds order-of-magnitude usage feedback,
//! not real tokenization.

use vstd::prelude::*;

verus! {

/// Number of bytes in the UTF-8 encoding of a character sequence.
pub open spec fn spec_byte_len(s: Seq<char>) -> nat {
    vstd::utf8::encode_utf8(s).len()
}

/// Estimated token count of a text: its UTF-8 byte length divided by four,
/// by integer division. A text held in memory has a byte length that fits in
/// `usize`, so the cast never clips on real inputs.
pub open spec fn spec_estimate(s: Seq<char>) -> nat {
    ((spec_byte_len(s) as usize) / 4) as nat
}

/// Stateless token estimation heuristic.
pub struct TokenEstimator;

impl TokenEstimator {
    pub fn new() -> (r: Self) {
        TokenEstimator
    }

    /// Estimated tokens of `text`: exactly its byte length divided by four.
    pub fn estimate(&self, text: &str) -> (n: usize)
        ensures
            n == spec_estimate(text@),
    {
        text.len() / 4
    }
}

/// UTF-8 encoding distributes over concatenation, so the byte length of a
/// concatenation of two texts is the sum of their byte lengths.
pub proof fn lemma_byte_len_concat(a: Seq<char>, b: Seq<char>)
    ensures
        spec_byte_len(a + b) == spec_byte_len(a) + spec_byte_len(b),
    decreases a.len(),
{
    if a.len() == 0 {
        assert(a + b =~= b);
    } else {
        assert((a + b).drop_first() =~= a.drop_first() + b);
        assert((a + b)[0] == a[0]);
        lemma_byte_len_concat(a.drop_first(), b);
    }
}

} // verus!
