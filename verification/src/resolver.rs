//! Path resolution: percent-decoding the raw URL path segments, dropping
//! empty ones, and refusing anything that could navigate outside the
//! server root.

use vstd::prelude::*;
use vstd::string::StringExecFns;
use vstd::string::StrSliceExecFns;

use crate::errors::HttpError;
use crate::strutil::str_eq;
use crate::urlenc::{pct_decoded_of, percent_decode_segment};

verus! {

/// The views of a vector of strings.
pub open spec fn seq_views(v: Seq<String>) -> Seq<Seq<char>> {
    v.map_values(|s: String| s@)
}

/// A decoded segment that joins onto the root without navigating: not `.`,
/// not `..`, and free of path separators (which percent-encoding could
/// otherwise smuggle in).
pub open spec fn segment_safe(s: Seq<char>) -> bool {
    &&& s != "."@
    &&& s != ".."@
    &&& forall|i: int| 0 <= i < s.len() ==> s[i] != '/' && s[i] != '\\'
}

/// What the raw URL path segments resolve to: empty segments dropped, the
/// rest percent-decoded, in order. `None` when a segment's
/// percent-encoding is invalid or a decoded segment is unsafe.
pub open spec fn resolved_path(raw: Seq<Seq<char>>) -> Option<Seq<Seq<char>>>
    decreases raw.len(),
{
    if raw.len() == 0 {
        Some(Seq::empty())
    } else {
        match resolved_path(raw.drop_last()) {
            None => None,
            Some(pre) => {
                let last = raw.last();
                if last.len() == 0 {
                    Some(pre)
                } else {
                    match pct_decoded_of(last) {
                        None => None,
                        Some(d) => if segment_safe(d) {
                            Some(pre.push(d))
                        } else {
                            None
                        },
                    }
                }
            },
        }
    }
}

/// Once a prefix fails to resolve, the whole path fails.
proof fn lemma_resolved_path_none_prefix(raw: Seq<Seq<char>>, j: int)
    requires
        0 <= j <= raw.len(),
        resolved_path(raw.take(j)) is None,
    ensures
        resolved_path(raw) is None,
    decreases raw.len() - j,
{
    if j == raw.len() {
        assert(raw.take(j) =~= raw);
    } else {
        assert(raw.take(j + 1).drop_last() =~= raw.take(j));
        lemma_resolved_path_none_prefix(raw, j + 1);
    }
}

/// The decoded segments joined with `/`: the request path as shown to the
/// suffix match and to error text.
pub open spec fn joined_path_chars(segs: Seq<Seq<char>>) -> Seq<char>
    decreases segs.len(),
{
    if segs.len() == 0 {
        Seq::empty()
    } else if segs.len() == 1 {
        segs[0]
    } else {
        joined_path_chars(segs.drop_last()) + "/"@ + segs.last()
    }
}

/// Joins the decoded segments with `/`.
pub fn join_path(segs: &Vec<String>) -> (r: String)
    ensures
        r@ == joined_path_chars(seq_views(segs@)),
{
    let ghost sv = seq_views(segs@);
    let mut s = String::new();
    let mut i: usize = 0;
    while i < segs.len()
        invariant
            0 <= i <= segs@.len(),
            sv == seq_views(segs@),
            sv.len() == segs@.len(),
            s@ == joined_path_chars(sv.take(i as int)),
        decreases segs@.len() - i,
    {
        proof {
            assert(sv.take(i + 1).drop_last() =~= sv.take(i as int));
            assert(sv.take(i + 1).last() == segs@[i as int]@);
        }
        if i > 0 {
            s.append("/");
        }
        s.append(segs[i].as_str());
        proof {
            if i == 0 {
                assert(s@ =~= joined_path_chars(sv.take(1)));
            }
        }
        i += 1;
    }
    proof {
        assert(sv.take(i as int) =~= sv);
    }
    s
}

/// Checks that one decoded segment is safe to join onto the root.
pub fn segment_ok(s: &String) -> (r: bool)
    ensures
        r == segment_safe(s@),
{
    if str_eq(s.as_str(), ".") || str_eq(s.as_str(), "..") {
        return false;
    }
    let n = s.as_str().unicode_len();
    let mut i: usize = 0;
    while i < n
        invariant
            0 <= i <= n,
            n == s@.len(),
            forall|j: int| 0 <= j < i ==> s@[j] != '/' && s@[j] != '\\',
        decreases n - i,
    {
        let c = s.as_str().get_char(i);
        if c == '/' || c == '\\' {
            return false;
        }
        i += 1;
    }
    true
}

/// Decodes the raw URL path segments into the relative path below the
/// server root, exactly as `resolved_path` states; a path that does not
/// resolve is a 400 Bad Request.
pub fn resolve_path_segments(raw: &Vec<String>) -> (res: Result<Vec<String>, HttpError>)
    ensures
        resolved_path(seq_views(raw@)) matches Some(sv) ==> (res matches Ok(v) && seq_views(v@)
            == sv),
        resolved_path(seq_views(raw@)) is None ==> (res matches Err(e) && e matches
            HttpError::BadRequest(_)),
{
    let ghost rv = seq_views(raw@);
    let mut out: Vec<String> = Vec::new();
    let mut i: usize = 0;
    proof {
        assert(rv.take(0) =~= Seq::empty());
        assert(seq_views(out@) =~= Seq::empty());
    }
    while i < raw.len()
        invariant
            0 <= i <= raw@.len(),
            rv == seq_views(raw@),
            rv.len() == raw@.len(),
            resolved_path(rv.take(i as int)) matches Some(pre) && pre == seq_views(out@),
        decreases raw@.len() - i,
    {
        proof {
            assert(rv.take(i + 1).drop_last() =~= rv.take(i as int));
            assert(rv.take(i + 1).last() == raw@[i as int]@);
        }
        let s = &raw[i];
        if s.as_str().unicode_len() == 0 {
            i += 1;
            continue ;
        }
        match percent_decode_segment(s.as_str()) {
            None => {
                proof {
                    lemma_resolved_path_none_prefix(rv, i + 1);
                }
                return Err(
                    HttpError::BadRequest(
                        String::from_str("Invalid percent-encoding in path"),
                    ),
                );
            },
            Some(d) => {
                if !segment_ok(&d) {
                    proof {
                        lemma_resolved_path_none_prefix(rv, i + 1);
                    }
                    return Err(
                        HttpError::BadRequest(String::from_str("Invalid path segment")),
                    );
                }
                let ghost prev = seq_views(out@);
                out.push(d);
                proof {
                    assert(seq_views(out@) =~= prev.push(out@.last()@));
                }
                i += 1;
            },
        }
    }
    proof {
        assert(rv.take(i as int) =~= rv);
    }
    Ok(out)
}

} // verus!
