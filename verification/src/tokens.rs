//! Cheap, deterministic approximation of an LLM token count from text length.
//!
//! Both the cache engine and the projection code annotate every piece of
//! content with a cost; the approximation is one token per four characters,
//! rounded to the nearest whole token.

use vstd::prelude::*;
use vstd::string::StrSliceExecFns;

verus! {

/// One token per four characters, rounded to the nearest whole token.
pub open spec fn spec_estimate_tokens(len: nat) -> nat {
    len / 4 + if len % 4 >= 2 {
        1nat
    } else {
        0nat
    }
}

/// Estimate the token cost of a piece of content from its character length.
pub fn estimate_tokens(content: &str) -> (r: usize)
    ensures
        r == spec_estimate_tokens(content@.len()),
{
    let len = content.unicode_len();
    len / 4 + if len % 4 >= 2 {
        1
    } else {
        0
    }
}

} // verus!
