//! Approximate token accounting for conversation budgeting.
//!
//! Sizes are a cheap estimate proportional to the UTF-8 byte length of the
//! text, not an exact tokenizer count.

use vstd::prelude::*;
use vstd::string::StringSliceAdditionalSpecFns;

verus! {

/// The estimated token count of a piece of text: a quarter of its UTF-8
/// byte length, with a small rounding offset.
pub open spec fn text_tokens(s: Seq<char>) -> nat {
    (vstd::utf8::encode_utf8(s).len() + 2) / 4
}

/// Types whose approximate token footprint can be measured.
pub trait Tokens {
    /// The mathematical token estimate of this value.
    spec fn spec_tokens(&self) -> nat;

    /// Computes the token estimate.
    fn tokens(&self) -> (r: u64)
        ensures
            r == self.spec_tokens(),
    ;
}

impl Tokens for str {
    open spec fn spec_tokens(&self) -> nat {
        text_tokens(self@)
    }

    fn tokens(&self) -> (r: u64) {
        let bytes = self.as_bytes();
        (((bytes.len() as u128) + 2) / 4) as u64
    }
}

impl Tokens for String {
    open spec fn spec_tokens(&self) -> nat {
        text_tokens(self@)
    }

    fn tokens(&self) -> (r: u64) {
        let bytes = self.as_str().as_bytes();
        (((bytes.len() as u128) + 2) / 4) as u64
    }
}

/// A coarser estimate used by older callers: a quarter of the byte length,
/// with no rounding offset.
pub fn token_count(content: &str) -> (r: usize)
    ensures
        r == vstd::utf8::encode_utf8(content@).len() / 4,
{
    content.as_bytes().len() / 4
}

/// The token estimate of an optional message body; an absent body costs
/// nothing.
pub fn message_token_count(content: &Option<String>) -> (r: usize)
    ensures
        match content {
            Some(text) => r == vstd::utf8::encode_utf8(text@).len() / 4,
            None => r == 0,
        },
{
    match content {
        Some(text) => token_count(text.as_str()),
        None => 0,
    }
}

} // verus!
