//! Case mapping and lossy decoding, done by the standard library.
//!
//! Unicode case mapping takes the Unicode Character Database to state, so the
//! results are named rather than spelled out: the names below stand for what
//! `str::to_uppercase`, `str::to_lowercase` and `String::from_utf8_lossy`
//! return for a given argument.
use vstd::prelude::*;
use vstd::utf8::{encode_utf8, valid_utf8};

verus! {

/// What `str::to_uppercase` returns for the characters `s`.
pub uninterp spec fn uppercase(s: Seq<char>) -> Seq<char>;

/// What `str::to_lowercase` returns for the characters `s`.
pub uninterp spec fn lowercase(s: Seq<char>) -> Seq<char>;

/// What `String::from_utf8_lossy` returns for the bytes `b`.
pub uninterp spec fn utf8_lossy(b: Seq<u8>) -> Seq<char>;

/// `str::to_uppercase`: the Unicode uppercase mapping of `s`. The contract
/// names the result; it does not spell out the mapping.
#[verifier::external_body]
pub(crate) fn to_uppercase(s: &str) -> (r: String)
    ensures
        r@ == uppercase(s@),
{
    s.to_uppercase()
}

/// `str::to_lowercase`: the Unicode lowercase mapping of `s`. The contract
/// names the result; it does not spell out the mapping.
#[verifier::external_body]
pub(crate) fn to_lowercase(s: &str) -> (r: String)
    ensures
        r@ == lowercase(s@),
{
    s.to_lowercase()
}

/// `String::from_utf8_lossy`: decodes `b`, putting U+FFFD in place of each
/// invalid sequence. The contract names the result and states what the
/// documentation promises for valid input: the text is `b` itself. Where the
/// replacement characters go on invalid input is left unsaid.
#[verifier::external_body]
pub(crate) fn from_utf8_lossy(b: &[u8]) -> (r: String)
    ensures
        r@ == utf8_lossy(b@),
        valid_utf8(b@) ==> encode_utf8(r@) == b@,
{
    String::from_utf8_lossy(b).into_owned()
}

} // verus!
