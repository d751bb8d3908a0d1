//! Percent-encoding and -decoding of URL path segments, done by the
//! percent-encoding crate behind named results.

use vstd::prelude::*;

verus! {

/// What percent-decoding a string and reading the bytes back as UTF-8
/// yields: `None` exactly when the decoded bytes are not valid UTF-8.
pub uninterp spec fn pct_decoded_of(s: Seq<char>) -> Option<Seq<char>>;

/// What percent-encoding a string with the non-alphanumeric set yields.
pub uninterp spec fn pct_encoded_of(s: Seq<char>) -> Seq<char>;

/// Whether the string holds a `%` at all; without one, percent-decoding
/// passes it through.
pub open spec fn has_percent(s: Seq<char>) -> bool {
    exists|i: int| 0 <= i < s.len() && s[i] == '%'
}

/// An ASCII digit or letter.
pub open spec fn ascii_alphanumeric(c: char) -> bool {
    (48 <= c as u32 && c as u32 <= 57) || (65 <= c as u32 && c as u32 <= 90) || (97 <= c as u32
        && c as u32 <= 122)
}

/// Relies on percent_encoding::percent_decode_str / decode_utf8: every `%`
/// followed by two hex digits becomes that byte, everything else passes
/// through, and the bytes are read back as UTF-8 (`None` when that fails).
/// In particular a string without `%` comes back unchanged.
#[verifier::external_body]
pub(crate) fn percent_decode_segment(s: &str) -> (r: Option<String>)
    ensures
        r matches Some(t) ==> pct_decoded_of(s@) == Some(t@),
        r is None ==> pct_decoded_of(s@) is None,
        r is None ==> has_percent(s@),
        r matches Some(t) ==> t@ == s@ || has_percent(s@),
{
    match percent_encoding::percent_decode_str(s).decode_utf8() {
        Ok(cow) => Some(cow.into_owned()),
        Err(_) => None,
    }
}

/// Relies on percent_encoding::utf8_percent_encode with the
/// NON_ALPHANUMERIC set: ASCII digits and letters pass through, every
/// other byte of the UTF-8 form becomes `%XX`. In particular a string of
/// ASCII digits and letters alone comes back unchanged.
#[verifier::external_body]
pub(crate) fn percent_encode_segment(s: &str) -> (r: String)
    ensures
        r@ == pct_encoded_of(s@),
        r@ == s@ || exists|i: int| 0 <= i < s@.len() && !ascii_alphanumeric(s@[i]),
{
    percent_encoding::utf8_percent_encode(s, percent_encoding::NON_ALPHANUMERIC).to_string()
}

} // verus!
