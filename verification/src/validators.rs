//! Cache validators: the weak ETag derived from file metadata, entity-tag
//! comparison, and evaluation of the conditional request headers
//! `If-Match`, `If-Range` and `If-Modified-Since`.

use vstd::prelude::*;
use vstd::string::StringExecFns;

use crate::fmt::{spec_hex, u64_to_hex};

verus! {

/// A file's modification time: seconds since the Unix epoch (possibly
/// negative) plus nanoseconds.
#[derive(Clone, Copy, PartialEq, Eq, Structural, Debug)]
pub struct ModTime {
    pub secs: i64,
    pub nsecs: u32,
}

/// An HTTP entity tag: the text between the quotes, plus its weakness flag.
#[derive(Clone, Debug)]
pub struct EntityTag {
    pub weak: bool,
    pub tag: String,
}

/// The two's-complement bit pattern of a signed second count, as the
/// non-negative integer that lowercase-hex rendering works on.
pub open spec fn sec_bits(s: i64) -> int {
    if s >= 0 {
        s as int
    } else {
        s + 0x1_0000_0000_0000_0000
    }
}

/// The weak ETag text for a file of length `len` modified at `mt`:
/// `<len hex>-<secs hex>.<nsecs hex>`, every part lowercase hex.
pub open spec fn etag_chars(len: u64, mt: ModTime) -> Seq<char> {
    spec_hex(len as int) + "-"@ + spec_hex(sec_bits(mt.secs)) + "."@ + spec_hex(mt.nsecs as int)
}

/// Builds the weak ETag text for a file of length `len` modified at `mt`.
pub fn etag_for(len: u64, mt: ModTime) -> (s: String)
    ensures
        s@ == etag_chars(len, mt),
{
    let sec_part: u64 = if mt.secs >= 0 {
        mt.secs as u64
    } else {
        let mag = (-(mt.secs + 1)) as u64;
        u64::MAX - mag
    };
    assert(sec_part as int == sec_bits(mt.secs));
    let mut s = u64_to_hex(len);
    s.append("-");
    s.append(u64_to_hex(sec_part).as_str());
    s.append(".");
    s.append(u64_to_hex(mt.nsecs as u64).as_str());
    proof {
        assert(s@ =~= etag_chars(len, mt));
    }
    s
}

impl EntityTag {
    /// A weak tag with the given text.
    pub fn weak_tag(tag: String) -> (t: EntityTag)
        ensures
            t.weak,
            t.tag@ == tag@,
    {
        EntityTag { weak: true, tag }
    }

    /// Strong comparison: equal texts and both tags strong.
    pub open spec fn spec_strong_eq(&self, other: &EntityTag) -> bool {
        !self.weak && !other.weak && self.tag@ == other.tag@
    }

    /// Weak comparison: equal texts, weakness ignored.
    pub open spec fn spec_weak_eq(&self, other: &EntityTag) -> bool {
        self.tag@ == other.tag@
    }

    pub fn strong_eq(&self, other: &EntityTag) -> (r: bool)
        ensures
            r == self.spec_strong_eq(other),
    {
        !self.weak && !other.weak && self.tag == other.tag
    }

    pub fn weak_eq(&self, other: &EntityTag) -> (r: bool)
        ensures
            r == self.spec_weak_eq(other),
    {
        self.tag == other.tag
    }
}

/// The `If-Match` request header: `*` or a list of entity tags.
#[derive(Clone, Debug)]
pub enum IfMatch {
    Any,
    Items(Vec<EntityTag>),
}

/// The `If-Match` precondition on a range request holds when the header is
/// absent, is `*`, or lists some tag that strongly equals the current one
/// (of weakness `cur_weak` and text `cur`). A strong comparison never
/// matches a weak current tag, so a listed `If-Match` always fails against
/// the weak ETags this server computes.
pub open spec fn if_match_passes(im: Option<IfMatch>, cur_weak: bool, cur: Seq<char>) -> bool {
    match im {
        None => true,
        Some(IfMatch::Any) => true,
        Some(IfMatch::Items(items)) => exists|i: int|
            0 <= i < items@.len() && !items@[i].weak && !cur_weak && items@[i].tag@ == cur,
    }
}

/// Whether some listed tag strongly equals the current one.
fn contains_strong_match(items: &Vec<EntityTag>, current: &EntityTag) -> (r: bool)
    ensures
        r == exists|i: int|
            0 <= i < items@.len() && !items@[i].weak && !current.weak && items@[i].tag@
                == current.tag@,
{
    let mut i: usize = 0;
    while i < items.len()
        invariant
            0 <= i <= items@.len(),
            forall|j: int| 0 <= j < i ==> !items@[j].spec_strong_eq(current),
        decreases items@.len() - i,
    {
        if items[i].strong_eq(current) {
            proof {
                let w = i as int;
                assert(0 <= w < items@.len() && items@[w].spec_strong_eq(current));
            }
            return true;
        }
        i += 1;
    }
    false
}

/// Evaluates the `If-Match` precondition against the current ETag.
pub fn check_if_match(im: &Option<IfMatch>, current: &EntityTag) -> (r: bool)
    ensures
        r == if_match_passes(*im, current.weak, current.tag@),
{
    match im {
        None => true,
        Some(IfMatch::Any) => true,
        Some(IfMatch::Items(items)) => contains_strong_match(items, current),
    }
}

/// The `If-Range` request header: an entity tag or an HTTP date
/// (seconds since the Unix epoch).
#[derive(Clone, Debug)]
pub enum IfRange {
    Tag(EntityTag),
    Date(i64),
}

/// Whether a `Range` header should still be honored: always when `If-Range`
/// is absent; with a tag, only when its text weakly equals the current
/// ETag's text `cur`; with a date, only when the modification time is not
/// after it.
pub open spec fn if_range_honors(ir: Option<IfRange>, cur: Seq<char>, mt: ModTime) -> bool {
    match ir {
        None => true,
        Some(IfRange::Tag(t)) => t.tag@ == cur,
        Some(IfRange::Date(d)) => mt.secs <= d,
    }
}

/// Evaluates `If-Range`; a failed test silently discards the range
/// (it never produces an error).
pub fn check_if_range(ir: &Option<IfRange>, current: &EntityTag, mt: &ModTime) -> (r: bool)
    ensures
        r == if_range_honors(*ir, current.tag@, *mt),
{
    match ir {
        None => true,
        Some(IfRange::Tag(t)) => current.weak_eq(t),
        Some(IfRange::Date(d)) => mt.secs <= *d,
    }
}

/// `If-Modified-Since` short-circuits to 304 Not Modified exactly when the
/// header is present and the modification time is not after its date.
pub open spec fn not_modified_since(ims: Option<i64>, mt: ModTime) -> bool {
    match ims {
        None => false,
        Some(d) => mt.secs <= d,
    }
}

/// Evaluates `If-Modified-Since` against the modification time.
pub fn check_not_modified(ims: &Option<i64>, mt: &ModTime) -> (r: bool)
    ensures
        r == not_modified_since(*ims, *mt),
{
    match ims {
        None => false,
        Some(d) => mt.secs <= *d,
    }
}

/// Validators are a function of the file's metadata alone: two resources
/// with the same length and modification time always carry the same ETag
/// text and the same `Last-Modified` instant.
pub proof fn lemma_validators_deterministic(l1: u64, m1: ModTime, l2: u64, m2: ModTime)
    requires
        l1 == l2,
        m1 == m2,
    ensures
        etag_chars(l1, m1) == etag_chars(l2, m2),
        m1.secs == m2.secs,
{
}

} // verus!
