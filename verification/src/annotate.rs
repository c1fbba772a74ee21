//! Cleanup of raw annotation-engine output before it is reported as an
//! annotation-ready event: chat-template delimiter tokens are stripped, the
//! rest is trimmed, and an empty result is replaced by a sentinel so that no
//! unit ever carries an empty annotation.

use vstd::prelude::*;

use crate::text::{remove_all, trimmed};
use crate::text::{remove_occurrences, trim_str};

verus! {

/// The sentinel reported when the annotation engine produced no usable text.
pub open spec fn no_result_sentinel() -> Seq<char> {
    "[No translation generated]"@
}

/// What `clean_annotation` returns: the input with every occurrence of the
/// two chat-template delimiters removed and whitespace trimmed from both
/// ends, or the no-result sentinel when nothing remains.
pub open spec fn cleaned(s: Seq<char>) -> Seq<char> {
    let t = trimmed(remove_all(remove_all(s, "<|im_start|>"@), "<|im_end|>"@));
    if t.len() == 0 {
        no_result_sentinel()
    } else {
        t
    }
}

/// Normalizes one raw annotation result.
pub fn clean_annotation(raw: &str) -> (r: String)
    ensures
        r@ == cleaned(raw@),
{
    proof {
        reveal_strlit("<|im_start|>");
        reveal_strlit("<|im_end|>");
    }
    let step1 = remove_occurrences(raw, "<|im_start|>");
    let step2 = remove_occurrences(step1.as_str(), "<|im_end|>");
    let t = trim_str(step2.as_str());
    if t.unicode_len() == 0 {
        String::from_str("[No translation generated]")
    } else {
        t.to_owned()
    }
}

} // verus!
