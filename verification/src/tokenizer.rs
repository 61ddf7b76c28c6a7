//! The token-count oracle: the fixed cl100k_base byte-pair encoding, used
//! only to measure text against the model's context window.

use vstd::prelude::*;

verus! {

#[verifier::external_type_specification]
#[verifier::external_body]
pub struct ExCoreBPE(tiktoken_rs::CoreBPE);

/// How many cl100k_base tokens the byte-pair encoder produces for a
/// non-empty text. The segmentation depends on the text alone.
pub uninterp spec fn encoded_len(s: Seq<char>) -> int;

/// How many cl100k_base tokens a text measures: an empty text measures
/// zero, any other text measures what the encoder produces for it.
pub open spec fn token_count(s: Seq<char>) -> int {
    if s.len() == 0 {
        0
    } else {
        encoded_len(s)
    }
}

/// A handle on the fixed cl100k_base encoder.
pub struct Tokenizer {
    bpe: tiktoken_rs::CoreBPE,
}

impl Tokenizer {
    /// Relies on tiktoken_rs::cl100k_base: loads the fixed cl100k_base
    /// encoding, or fails if its table cannot be read.
    #[verifier::external_body]
    pub fn new() -> (t: Option<Tokenizer>) {
        match tiktoken_rs::cl100k_base() {
            Ok(bpe) => Some(Tokenizer { bpe }),
            Err(_) => None,
        }
    }

    /// Relies on tiktoken_rs::CoreBPE::encode_ordinary: segments the text
    /// into cl100k_base tokens; the segmentation is a function of the text
    /// alone, and an empty text yields no tokens.
    #[verifier::external_body]
    pub fn count_tokens(&self, text: &str) -> (n: usize)
        ensures
            n as int == token_count(text@),
            text@.len() > 0 ==> n as int == encoded_len(text@),
    {
        self.bpe.encode_ordinary(text).len()
    }
}

} // verus!
