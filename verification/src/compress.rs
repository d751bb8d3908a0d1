//! Compression negotiation: intersecting the configured compressible
//! suffixes with the client's `Accept-Encoding` list.

use vstd::prelude::*;
use vstd::string::StrSliceExecFns;

use crate::resolver::seq_views;

verus! {

/// A content coding the client can name in `Accept-Encoding`. Anything
/// this server cannot produce is `Other`.
#[derive(Clone, Copy, PartialEq, Eq, Structural, Debug)]
pub enum Coding {
    Gzip,
    Deflate,
    Other,
}

/// A coding this server can produce.
pub open spec fn compressive(c: Coding) -> bool {
    c is Gzip || c is Deflate
}

/// The first gzip or deflate in the client's list, in the client's order.
pub open spec fn first_accepted(encs: Seq<Coding>) -> Option<Coding>
    decreases encs.len(),
{
    if encs.len() == 0 {
        None
    } else if compressive(encs[0]) {
        Some(encs[0])
    } else {
        first_accepted(encs.drop_first())
    }
}

/// Whether the client accepts any coding this server can produce.
pub open spec fn accepts_compression(encs: Seq<Coding>) -> bool {
    first_accepted(encs) is Some
}

/// Picks the first gzip or deflate in the client's list.
pub fn pick_encoding(encs: &Vec<Coding>) -> (r: Option<Coding>)
    ensures
        r == first_accepted(encs@),
{
    let mut i: usize = 0;
    proof {
        assert(encs@.skip(0) =~= encs@);
    }
    while i < encs.len()
        invariant
            0 <= i <= encs@.len(),
            first_accepted(encs@) == first_accepted(encs@.skip(i as int)),
        decreases encs@.len() - i,
    {
        let c = encs[i];
        proof {
            assert(encs@.skip(i as int)[0] == encs@[i as int]);
            assert(encs@.skip(i as int).drop_first() =~= encs@.skip(i + 1));
        }
        if matches!(c, Coding::Gzip) || matches!(c, Coding::Deflate) {
            return Some(c);
        }
        i += 1;
    }
    None
}

/// `t` is a suffix of `s`.
pub open spec fn suffix_of(s: Seq<char>, t: Seq<char>) -> bool {
    t.len() <= s.len() && s.skip(s.len() - t.len()) == t
}

/// Whether the string ends with the given suffix.
pub fn str_ends_with(s: &str, t: &str) -> (r: bool)
    ensures
        r == suffix_of(s@, t@),
{
    let ls = s.unicode_len();
    let lt = t.unicode_len();
    if lt > ls {
        return false;
    }
    let base = ls - lt;
    let mut j: usize = 0;
    while j < lt
        invariant
            0 <= j <= lt,
            ls == s@.len(),
            lt == t@.len(),
            base == ls - lt,
            forall|k: int| 0 <= k < j ==> s@[base + k] == t@[k],
        decreases lt - j,
    {
        if s.get_char(base + j) != t.get_char(j) {
            proof {
                assert(s@.skip(base as int)[j as int] == s@[base + j]);
            }
            return false;
        }
        j += 1;
    }
    proof {
        assert(s@.skip(base as int) =~= t@);
    }
    true
}

/// Whether the path name ends with one of the configured suffixes.
pub open spec fn matches_compress_ext(exts: Seq<Seq<char>>, name: Seq<char>) -> bool {
    exists|i: int| 0 <= i < exts.len() && suffix_of(name, exts[i])
}

/// Checks the path name against the configured suffixes.
pub fn matches_ext(exts: &Vec<String>, name: &str) -> (r: bool)
    ensures
        r == matches_compress_ext(seq_views(exts@), name@),
{
    let mut i: usize = 0;
    while i < exts.len()
        invariant
            0 <= i <= exts@.len(),
            forall|j: int| 0 <= j < i ==> !suffix_of(name@, seq_views(exts@)[j]),
        decreases exts@.len() - i,
    {
        if str_ends_with(name, exts[i].as_str()) {
            proof {
                let w = i as int;
                assert(0 <= w < seq_views(exts@).len() && suffix_of(name@, seq_views(exts@)[w]));
            }
            return true;
        }
        i += 1;
    }
    false
}

/// The coding of a file response: never for a partial response, never
/// without configured suffixes, never for a file whose name matches no
/// suffix; otherwise the first coding the client accepts.
pub open spec fn negotiated_encoding(
    compress: Option<Vec<String>>,
    name: Seq<char>,
    partial: bool,
    encs: Option<Vec<Coding>>,
) -> Option<Coding> {
    if partial {
        None
    } else {
        match compress {
            None => None,
            Some(exts) => if matches_compress_ext(seq_views(exts@), name) {
                match encs {
                    None => None,
                    Some(e) => first_accepted(e@),
                }
            } else {
                None
            },
        }
    }
}

/// Negotiates the coding of a file response.
pub fn negotiate_file_encoding(
    compress: &Option<Vec<String>>,
    name: &str,
    partial: bool,
    encs: &Option<Vec<Coding>>,
) -> (r: Option<Coding>)
    ensures
        r == negotiated_encoding(*compress, name@, partial, *encs),
{
    if partial {
        return None;
    }
    match compress {
        None => None,
        Some(exts) => {
            if matches_ext(exts, name) {
                match encs {
                    None => None,
                    Some(e) => pick_encoding(e),
                }
            } else {
                None
            }
        },
    }
}

/// The coding of a rendered listing: gzip whenever compression is
/// configured at all and the client accepts gzip or deflate (listings are
/// always eligible).
pub open spec fn listing_encoding(
    compress: Option<Vec<String>>,
    encs: Option<Vec<Coding>>,
) -> Option<Coding> {
    if compress is Some && (encs matches Some(e) && accepts_compression(e@)) {
        Some(Coding::Gzip)
    } else {
        None
    }
}

/// Negotiates the coding of a rendered listing.
pub fn negotiate_listing_encoding(
    compress: &Option<Vec<String>>,
    encs: &Option<Vec<Coding>>,
) -> (r: Option<Coding>)
    ensures
        r == listing_encoding(*compress, *encs),
{
    if compress.is_some() {
        match encs {
            Some(e) => {
                if pick_encoding(e).is_some() {
                    Some(Coding::Gzip)
                } else {
                    None
                }
            },
            None => None,
        }
    } else {
        None
    }
}

/// A partial response is never compressed, whatever the configuration and
/// whatever the client accepts.
pub proof fn lemma_no_compression_when_partial(
    compress: Option<Vec<String>>,
    name: Seq<char>,
    encs: Option<Vec<Coding>>,
)
    ensures
        negotiated_encoding(compress, name, true, encs) is None,
{
}

} // verus!
