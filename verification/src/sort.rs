//! Directory-entry sorting: the sort query parameters, the per-field
//! comparator, and a verified in-place sort.

use vstd::prelude::*;
use vstd::string::StringExecFns;

use crate::errors::HttpError;
use crate::strutil::{lex_le, lemma_lex_le_connex, lemma_lex_le_refl, lemma_lex_le_trans, str_eq,
    str_lex_le};
use crate::validators::ModTime;

verus! {

/// One entry of a directory listing, as plain values: the raw (not
/// URL-encoded) filename, whether it is a directory, its byte length, and
/// its modification time.
#[derive(Clone, Debug)]
pub struct DirEntry {
    pub name: String,
    pub is_dir: bool,
    pub size: u64,
    pub modified: ModTime,
}

/// The field a listing can be sorted by.
#[derive(Clone, Copy, PartialEq, Eq, Structural, Debug)]
pub enum SortField {
    Name,
    Modified,
    Size,
}

/// The direction a listing can be sorted in.
#[derive(Clone, Copy, PartialEq, Eq, Structural, Debug)]
pub enum SortOrder {
    Asc,
    Desc,
}

/// Which `sort` query value names which field: exactly `name`, `modified`
/// or `size`; anything else is a request error.
pub open spec fn sort_field_of(s: Seq<char>) -> Option<SortField> {
    if s == "name"@ {
        Some(SortField::Name)
    } else if s == "modified"@ {
        Some(SortField::Modified)
    } else if s == "size"@ {
        Some(SortField::Size)
    } else {
        None
    }
}

/// Which `order` query value names which direction: exactly `asc` or
/// `desc`; anything else is a request error.
pub open spec fn sort_order_of(s: Seq<char>) -> Option<SortOrder> {
    if s == "asc"@ {
        Some(SortOrder::Asc)
    } else if s == "desc"@ {
        Some(SortOrder::Desc)
    } else {
        None
    }
}

/// Parses the `sort` query value; an unknown field is a 400 Bad Request,
/// never a silent default.
pub fn parse_sort_field(s: &str) -> (res: Result<SortField, HttpError>)
    ensures
        sort_field_of(s@) matches Some(f) ==> res matches Ok(g) && g == f,
        sort_field_of(s@) is None ==> (res matches Err(e) && e matches HttpError::BadRequest(m)
            && m@ == "Unknown sort field: "@ + s@),
{
    if str_eq(s, "name") {
        Ok(SortField::Name)
    } else if str_eq(s, "modified") {
        Ok(SortField::Modified)
    } else if str_eq(s, "size") {
        Ok(SortField::Size)
    } else {
        let mut m = String::from_str("Unknown sort field: ");
        m.append(s);
        Err(HttpError::BadRequest(m))
    }
}

/// Parses the `order` query value; an unknown order is a 400 Bad Request,
/// never a silent default.
pub fn parse_sort_order(s: &str) -> (res: Result<SortOrder, HttpError>)
    ensures
        sort_order_of(s@) matches Some(o) ==> res matches Ok(p) && p == o,
        sort_order_of(s@) is None ==> (res matches Err(e) && e matches HttpError::BadRequest(m)
            && m@ == "Unknown sort order: "@ + s@),
{
    if str_eq(s, "asc") {
        Ok(SortOrder::Asc)
    } else if str_eq(s, "desc") {
        Ok(SortOrder::Desc)
    } else {
        let mut m = String::from_str("Unknown sort order: ");
        m.append(s);
        Err(HttpError::BadRequest(m))
    }
}

/// The ascending comparator for one field.
///
/// - `name`: lexicographic filename order.
/// - `modified`: modification-time order (seconds, then nanoseconds).
/// - `size`: every directory sorts before every file, directories compare
///   equal to each other, and files compare by byte length.
pub open spec fn base_le(f: SortField, a: DirEntry, b: DirEntry) -> bool {
    match f {
        SortField::Name => lex_le(a.name@, b.name@),
        SortField::Modified => a.modified.secs < b.modified.secs || (a.modified.secs
            == b.modified.secs && a.modified.nsecs <= b.modified.nsecs),
        SortField::Size => {
            if a.is_dir && b.is_dir {
                true
            } else if a.is_dir {
                true
            } else if b.is_dir {
                false
            } else {
                a.size <= b.size
            }
        },
    }
}

/// The comparator actually applied: descending order reverses the
/// ascending one.
pub open spec fn entry_le(f: SortField, o: SortOrder, a: DirEntry, b: DirEntry) -> bool {
    match o {
        SortOrder::Asc => base_le(f, a, b),
        SortOrder::Desc => base_le(f, b, a),
    }
}

/// A sequence of entries sorted by the comparator.
pub open spec fn sorted_entries(s: Seq<DirEntry>, f: SortField, o: SortOrder) -> bool {
    forall|i: int, j: int| 0 <= i < j < s.len() ==> entry_le(f, o, s[i], s[j])
}

/// The comparator is reflexive.
pub proof fn lemma_entry_le_refl(f: SortField, o: SortOrder, a: DirEntry)
    ensures
        entry_le(f, o, a, a),
{
    lemma_lex_le_refl(a.name@);
}

/// The comparator is strongly connected: any two entries compare one way
/// or the other.
pub proof fn lemma_entry_le_connex(f: SortField, o: SortOrder, a: DirEntry, b: DirEntry)
    ensures
        entry_le(f, o, a, b) || entry_le(f, o, b, a),
{
    lemma_lex_le_connex(a.name@, b.name@);
}

/// The comparator is transitive.
pub proof fn lemma_entry_le_trans(f: SortField, o: SortOrder, a: DirEntry, b: DirEntry, c: DirEntry)
    requires
        entry_le(f, o, a, b),
        entry_le(f, o, b, c),
    ensures
        entry_le(f, o, a, c),
{
    match o {
        SortOrder::Asc => {
            if f is Name {
                lemma_lex_le_trans(a.name@, b.name@, c.name@);
            }
        },
        SortOrder::Desc => {
            if f is Name {
                lemma_lex_le_trans(c.name@, b.name@, a.name@);
            }
        },
    }
}

/// Each field's comparator, in either direction, is a total preorder:
/// reflexive, transitive, and strongly connected (ties are possible, e.g.
/// two directories under the `size` field, so it is not antisymmetric).
pub proof fn lemma_entry_order_total(f: SortField, o: SortOrder)
    ensures
        forall|a: DirEntry| #[trigger] entry_le(f, o, a, a),
        forall|a: DirEntry, b: DirEntry| #[trigger] entry_le(f, o, a, b) || #[trigger] entry_le(
            f,
            o,
            b,
            a,
        ),
        forall|a: DirEntry, b: DirEntry, c: DirEntry|
            #![trigger entry_le(f, o, a, b), entry_le(f, o, b, c)]
            entry_le(f, o, a, b) && entry_le(f, o, b, c) ==> entry_le(f, o, a, c),
{
    assert forall|a: DirEntry| #[trigger] entry_le(f, o, a, a) by {
        lemma_entry_le_refl(f, o, a);
    }
    assert forall|a: DirEntry, b: DirEntry| #[trigger] entry_le(f, o, a, b) || #[trigger] entry_le(
        f,
        o,
        b,
        a,
    ) by {
        lemma_entry_le_connex(f, o, a, b);
    }
    assert forall|a: DirEntry, b: DirEntry, c: DirEntry|
        #![trigger entry_le(f, o, a, b), entry_le(f, o, b, c)]
        entry_le(f, o, a, b) && entry_le(f, o, b, c) implies entry_le(f, o, a, c) by {
        if entry_le(f, o, a, b) && entry_le(f, o, b, c) {
            lemma_entry_le_trans(f, o, a, b, c);
        }
    }
}

/// Under the `size` field in ascending order, any directory sorts strictly
/// before any file, whatever their byte lengths.
pub proof fn lemma_size_sorts_directories_first(a: DirEntry, b: DirEntry)
    requires
        a.is_dir,
        !b.is_dir,
    ensures
        entry_le(SortField::Size, SortOrder::Asc, a, b),
        !entry_le(SortField::Size, SortOrder::Asc, b, a),
{
}

/// Evaluates the ascending comparator for one field.
fn base_le_exec(f: &SortField, a: &DirEntry, b: &DirEntry) -> (r: bool)
    ensures
        r == base_le(*f, *a, *b),
{
    match f {
        SortField::Name => str_lex_le(a.name.as_str(), b.name.as_str()),
        SortField::Modified => a.modified.secs < b.modified.secs || (a.modified.secs
            == b.modified.secs && a.modified.nsecs <= b.modified.nsecs),
        SortField::Size => {
            if a.is_dir && b.is_dir {
                true
            } else if a.is_dir {
                true
            } else if b.is_dir {
                false
            } else {
                a.size <= b.size
            }
        },
    }
}

/// Evaluates the comparator actually applied.
pub fn entry_le_exec(f: &SortField, o: &SortOrder, a: &DirEntry, b: &DirEntry) -> (r: bool)
    ensures
        r == entry_le(*f, *o, *a, *b),
{
    match o {
        SortOrder::Asc => base_le_exec(f, a, b),
        SortOrder::Desc => base_le_exec(f, b, a),
    }
}

/// Sorts the entries in place by the given field and direction: afterwards
/// the entries are pairwise ordered by the comparator and are exactly the
/// entries given, as a multiset.
pub fn sort_entries(v: &mut Vec<DirEntry>, field: SortField, order: SortOrder)
    ensures
        final(v)@.len() == old(v)@.len(),
        sorted_entries(final(v)@, field, order),
        final(v)@.to_multiset() == old(v)@.to_multiset(),
{
    let mut i: usize = 1;
    while i < v.len()
        invariant
            1 <= i,
            i <= v.len() || v.len() <= 1,
            v@.len() == old(v)@.len(),
            v@.to_multiset() == old(v)@.to_multiset(),
            forall|a: int, b: int| 0 <= a < b < i && b < v@.len() ==> entry_le(
                field,
                order,
                v@[a],
                v@[b],
            ),
        decreases v@.len() - i,
    {
        let ghost pre = v@;
        let mut p: usize = i;
        loop
            invariant_except_break
                0 <= p <= i,
                i < v@.len(),
                v@ == pre,
                forall|k: int| p <= k < i ==> !entry_le(field, order, pre[k], pre[i as int]),
            ensures
                0 <= p <= i,
                i < v@.len(),
                v@ == pre,
                p > 0 ==> entry_le(field, order, pre[p - 1], pre[i as int]),
                forall|k: int| p <= k < i ==> !entry_le(field, order, pre[k], pre[i as int]),
            decreases p,
        {
            if p == 0 {
                break ;
            }
            if entry_le_exec(&field, &order, &v[p - 1], &v[i]) {
                break ;
            }
            p -= 1;
        }
        let ghost x = pre[i as int];
        let moved = v.remove(i);
        v.insert(p, moved);
        proof {
            let now = v@;
            assert(now == pre.remove(i as int).insert(p as int, x));
            pre.remove_ensures(i as int);
            pre.remove(i as int).insert_ensures(p as int, x);
            // The moved entry is still counted once: removing it and
            // inserting it back leaves the multiset unchanged.
            broadcast use vstd::seq_lib::to_multiset_insert;

            pre.to_multiset_ensures();
            assert(pre.to_multiset().count(x) > 0) by {
                assert(pre.contains(x));
            }
            assert(now.to_multiset() =~= pre.to_multiset());
            // Index map: entries below p kept, the moved entry at p, the
            // block [p, i) shifted up by one, the rest kept.
            assert forall|k: int| 0 <= k < p implies now[k] == pre[k] by {}
            assert(now[p as int] == x);
            assert forall|k: int| p < k <= i implies now[k] == pre[k - 1] by {}
            // The prefix through i is sorted again.
            assert forall|a: int, b: int| 0 <= a < b <= i implies entry_le(
                field,
                order,
                now[a],
                now[b],
            ) by {
                if b < p {
                    // both in the untouched prefix
                } else if b == p {
                    // a < p, so pre[a] <= pre[p-1] <= x
                    if a < p - 1 {
                        lemma_entry_le_trans(field, order, pre[a], pre[p - 1], x);
                    }
                } else if a < p {
                    // now[b] == pre[b-1] with p <= b-1 < i, still after a
                } else if a == p {
                    // x goes before everything it was moved past
                    lemma_entry_le_connex(field, order, pre[b - 1], x);
                } else {
                    // both in the shifted block or beyond, order kept
                }
            }
        }
        i += 1;
    }
    proof {
        assert(sorted_entries(v@, field, order));
    }
}

} // verus!
