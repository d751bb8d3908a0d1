//! Parsing the textual `Range` request header (`bytes=x-y,-z,...`): the
//! `bytes=` unit, comma-separated items with surrounding whitespace
//! trimmed, and unsigned decimal bounds. An item that does not parse is
//! dropped; a header that does not parse at all is treated as absent.

use vstd::prelude::*;
use vstd::string::StrSliceExecFns;

use crate::range::{ByteRangeSpec, RangeHeader};
use crate::strutil::str_eq;

verus! {

/// The position of the first occurrence of `c`.
pub open spec fn find_first(s: Seq<char>, c: char) -> Option<int>
    decreases s.len(),
{
    if s.len() == 0 {
        None
    } else if s[0] == c {
        Some(0)
    } else {
        match find_first(s.drop_first(), c) {
            Some(i) => Some(i + 1),
            None => None,
        }
    }
}

/// `find_first` is determined by a scan: no `c` before `i`, and `c` at `i`
/// (or none at all when `i` is the length).
proof fn lemma_find_first_at(s: Seq<char>, c: char, i: int)
    requires
        0 <= i <= s.len(),
        forall|k: int| 0 <= k < i ==> s[k] != c,
        i < s.len() ==> s[i] == c,
    ensures
        i < s.len() ==> find_first(s, c) == Some(i),
        i == s.len() ==> find_first(s, c) is None,
    decreases i,
{
    if i == 0 {
    } else {
        lemma_find_first_at(s.drop_first(), c, i - 1);
    }
}

/// Scans for `c` at or after `from`, returning its absolute position.
fn find_from(s: &str, c: char, from: usize) -> (r: Option<usize>)
    requires
        from <= s@.len(),
    ensures
        r matches Some(j) ==> from <= j < s@.len() && find_first(s@.skip(from as int), c) == Some(
            j - from,
        ),
        r is None ==> find_first(s@.skip(from as int), c) is None,
{
    let n = s.unicode_len();
    let mut j: usize = from;
    while j < n
        invariant
            from <= j <= n,
            n == s@.len(),
            forall|k: int| from <= k < j ==> s@[k] != c,
        decreases n - j,
    {
        if s.get_char(j) == c {
            proof {
                lemma_find_first_at(s@.skip(from as int), c, j - from);
            }
            return Some(j);
        }
        j += 1;
    }
    proof {
        lemma_find_first_at(s@.skip(from as int), c, n - from);
    }
    None
}

/// An ASCII decimal digit.
pub open spec fn is_digit(c: char) -> bool {
    48 <= c as u32 && c as u32 <= 57
}

/// Every character is an ASCII decimal digit.
pub open spec fn all_digits(s: Seq<char>) -> bool {
    forall|i: int| 0 <= i < s.len() ==> is_digit(s[i])
}

/// The number the digits spell, most significant first.
pub open spec fn digits_value(s: Seq<char>) -> int
    decreases s.len(),
{
    if s.len() == 0 {
        0
    } else {
        digits_value(s.drop_last()) * 10 + (s.last() as u32 - 48)
    }
}

/// The value of a digit string is never negative.
proof fn lemma_digits_value_nonneg(s: Seq<char>)
    requires
        all_digits(s),
    ensures
        digits_value(s) >= 0,
    decreases s.len(),
{
    if s.len() > 0 {
        lemma_digits_value_nonneg(s.drop_last());
    }
}

/// Extending a digit string never shrinks its value.
proof fn lemma_digits_value_grows(s: Seq<char>, k: int)
    requires
        all_digits(s),
        0 <= k <= s.len(),
    ensures
        digits_value(s) >= digits_value(s.take(k)),
    decreases s.len() - k,
{
    if k < s.len() {
        lemma_digits_value_grows(s, k + 1);
        assert(s.take(k + 1).drop_last() =~= s.take(k));
        lemma_digits_value_nonneg(s.take(k));
    } else {
        assert(s.take(k) =~= s);
    }
}

/// What `u64` parsing makes of a string: an optional leading `+`, then at
/// least one decimal digit, spelling a value that fits.
pub open spec fn u64_value_of(s: Seq<char>) -> Option<u64> {
    let t = if s.len() > 0 && s[0] == '+' {
        s.drop_first()
    } else {
        s
    };
    if t.len() == 0 || !all_digits(t) {
        None
    } else if digits_value(t) > u64::MAX {
        None
    } else {
        Some(digits_value(t) as u64)
    }
}

/// Parses an unsigned decimal number, rejecting overflow.
fn parse_u64(s: &str) -> (r: Option<u64>)
    ensures
        r == u64_value_of(s@),
{
    let n = s.unicode_len();
    let base: usize = if n > 0 && s.get_char(0) == '+' {
        1
    } else {
        0
    };
    let ghost t = if base == 1 {
        s@.drop_first()
    } else {
        s@
    };
    proof {
        assert(t =~= s@.skip(base as int));
    }
    if n == base {
        return None;
    }
    let mut acc: u64 = 0;
    let mut i: usize = base;
    while i < n
        invariant
            base <= i <= n,
            n == s@.len(),
            base == 0 || base == 1,
            t == s@.skip(base as int),
            t == (if s@.len() > 0 && s@[0] == '+' {
                s@.drop_first()
            } else {
                s@
            }),
            t.len() == n - base,
            n > base,
            forall|k: int| 0 <= k < i - base ==> is_digit(t[k]),
            acc == digits_value(t.take(i - base)),
        decreases n - i,
    {
        let c = s.get_char(i);
        let d = c as u32;
        proof {
            assert(t[i - base] == s@[i as int]);
        }
        if d < 48 || d > 57 {
            proof {
                assert(!is_digit(t[i - base]));
            }
            return None;
        }
        let d8 = (d - 48) as u64;
        if acc > (u64::MAX - d8) / 10 {
            proof {
                assert(acc * 10 + d8 > u64::MAX) by (nonlinear_arith)
                    requires
                        acc > (u64::MAX - d8) / 10,
                        d8 <= 9,
                ;
                assert(t.take(i - base + 1).drop_last() =~= t.take(i - base));
                assert(digits_value(t.take(i - base + 1)) > u64::MAX);
                if all_digits(t) {
                    lemma_digits_value_grows(t, i - base + 1);
                }
            }
            return None;
        }
        proof {
            assert(acc * 10 + d8 <= u64::MAX) by (nonlinear_arith)
                requires
                    acc <= (u64::MAX - d8) / 10,
                    d8 <= 9,
            ;
            assert(t.take(i - base + 1).drop_last() =~= t.take(i - base));
        }
        acc = acc * 10 + d8;
        i += 1;
    }
    proof {
        assert(t.take(i - base) =~= t);
    }
    Some(acc)
}

/// ASCII whitespace, as it may surround a range item.
pub open spec fn is_space(c: char) -> bool {
    c == ' ' || c == '\t' || c == '\r' || c == '\n'
}

/// The sequence without its leading whitespace.
pub open spec fn trim_front(s: Seq<char>) -> Seq<char>
    decreases s.len(),
{
    if s.len() > 0 && is_space(s[0]) {
        trim_front(s.drop_first())
    } else {
        s
    }
}

/// The sequence without its trailing whitespace.
pub open spec fn trim_back(s: Seq<char>) -> Seq<char>
    decreases s.len(),
{
    if s.len() > 0 && is_space(s.last()) {
        trim_back(s.drop_last())
    } else {
        s
    }
}

/// The sequence without leading and trailing whitespace.
pub open spec fn trimmed(s: Seq<char>) -> Seq<char> {
    trim_back(trim_front(s))
}

/// Trimming the front keeps everything from the first non-space on.
proof fn lemma_trim_front_at(s: Seq<char>, j: int)
    requires
        0 <= j <= s.len(),
        forall|k: int| 0 <= k < j ==> is_space(s[k]),
        j < s.len() ==> !is_space(s[j]),
    ensures
        trim_front(s) == s.skip(j),
    decreases j,
{
    if j == 0 {
        assert(s.skip(0) =~= s);
    } else {
        lemma_trim_front_at(s.drop_first(), j - 1);
        assert(s.drop_first().skip(j - 1) =~= s.skip(j));
    }
}

/// Trimming the back keeps everything up to the last non-space.
proof fn lemma_trim_back_at(s: Seq<char>, j: int)
    requires
        0 <= j <= s.len(),
        forall|k: int| j <= k < s.len() ==> is_space(s[k]),
        j > 0 ==> !is_space(s[j - 1]),
    ensures
        trim_back(s) == s.take(j),
    decreases s.len() - j,
{
    if j == s.len() {
        assert(s.take(j) =~= s);
    } else {
        lemma_trim_back_at(s.drop_last(), j);
        assert(s.drop_last().take(j) =~= s.take(j));
    }
}

/// What one `bytes=` item spells: `-x` is a suffix, `x-` is open-ended,
/// `x-y` needs `x <= y`; anything else (no dash, bad or oversized number)
/// is dropped.
pub open spec fn byte_range_spec_of(s: Seq<char>) -> Option<ByteRangeSpec> {
    match find_first(s, '-') {
        None => None,
        Some(d) => {
            let start = s.take(d);
            let end = s.skip(d + 1);
            if start.len() == 0 {
                match u64_value_of(end) {
                    Some(x) => Some(ByteRangeSpec::Last(x)),
                    None => None,
                }
            } else if end.len() == 0 {
                match u64_value_of(start) {
                    Some(x) => Some(ByteRangeSpec::AllFrom(x)),
                    None => None,
                }
            } else {
                match (u64_value_of(start), u64_value_of(end)) {
                    (Some(x), Some(y)) => if x <= y {
                        Some(ByteRangeSpec::FromTo(x, y))
                    } else {
                        None
                    },
                    _ => None,
                }
            }
        },
    }
}

/// Parses one already-trimmed range item.
fn parse_range_item(s: &str) -> (r: Option<ByteRangeSpec>)
    ensures
        r == byte_range_spec_of(s@),
{
    proof {
        assert(s@.skip(0) =~= s@);
    }
    let n = s.unicode_len();
    match find_from(s, '-', 0) {
        None => None,
        Some(d) => {
            let start = s.substring_char(0, d);
            let end = s.substring_char(d + 1, n);
            proof {
                assert(start@ =~= s@.take(d as int));
                assert(end@ =~= s@.skip(d + 1));
            }
            if start.unicode_len() == 0 {
                match parse_u64(end) {
                    Some(x) => Some(ByteRangeSpec::Last(x)),
                    None => None,
                }
            } else if end.unicode_len() == 0 {
                match parse_u64(start) {
                    Some(x) => Some(ByteRangeSpec::AllFrom(x)),
                    None => None,
                }
            } else {
                match (parse_u64(start), parse_u64(end)) {
                    (Some(x), Some(y)) => {
                        if x <= y {
                            Some(ByteRangeSpec::FromTo(x, y))
                        } else {
                            None
                        }
                    },
                    _ => None,
                }
            }
        },
    }
}

/// The items a comma-separated list spells, each trimmed, the unparsable
/// ones dropped.
pub open spec fn items_of(s: Seq<char>) -> Seq<ByteRangeSpec>
    decreases s.len(),
{
    match find_first(s, ',') {
        None => match byte_range_spec_of(trimmed(s)) {
            Some(r) => seq![r],
            None => Seq::empty(),
        },
        Some(i) => {
            // A found position always lies inside the sequence; the bound
            // check is only for termination checking.
            if 0 <= i < s.len() {
                (match byte_range_spec_of(trimmed(s.take(i))) {
                    Some(r) => seq![r],
                    None => Seq::empty(),
                }) + items_of(s.skip(i + 1))
            } else {
                Seq::empty()
            }
        },
    }
}

/// Checks for ASCII whitespace.
fn is_space_char(c: char) -> (r: bool)
    ensures
        r == is_space(c),
{
    c == ' ' || c == '\t' || c == '\r' || c == '\n'
}

/// Parses the segment `[a, b)` of the list, trimmed.
fn parse_segment(rest: &str, a: usize, b: usize) -> (r: Option<ByteRangeSpec>)
    requires
        a <= b <= rest@.len(),
    ensures
        r == byte_range_spec_of(trimmed(rest@.subrange(a as int, b as int))),
{
    let mut ta = a;
    while ta < b && is_space_char(rest.get_char(ta))
        invariant
            a <= ta <= b,
            b <= rest@.len(),
            forall|k: int| a <= k < ta ==> is_space(rest@[k]),
        decreases b - ta,
    {
        ta += 1;
    }
    let mut tb = b;
    while tb > ta && is_space_char(rest.get_char(tb - 1))
        invariant
            a <= ta <= tb <= b,
            b <= rest@.len(),
            forall|k: int| tb <= k < b ==> is_space(rest@[k]),
        decreases tb,
    {
        tb -= 1;
    }
    proof {
        let sub = rest@.subrange(a as int, b as int);
        lemma_trim_front_at(sub, ta - a);
        assert(sub.skip(ta - a) =~= rest@.subrange(ta as int, b as int));
        lemma_trim_back_at(rest@.subrange(ta as int, b as int), tb - ta);
        assert(rest@.subrange(ta as int, b as int).take(tb - ta) =~= rest@.subrange(
            ta as int,
            tb as int,
        ));
        assert(trimmed(sub) == rest@.subrange(ta as int, tb as int));
    }
    let seg = rest.substring_char(ta, tb);
    parse_range_item(seg)
}

/// Splits the list on commas and parses each item.
fn parse_items(rest: &str) -> (items: Vec<ByteRangeSpec>)
    ensures
        items@ == items_of(rest@),
{
    let n = rest.unicode_len();
    let mut items: Vec<ByteRangeSpec> = Vec::new();
    let mut pos: usize = 0;
    proof {
        assert(rest@.skip(0) =~= rest@);
    }
    loop
        invariant_except_break
            pos <= n,
            n == rest@.len(),
            items@ + items_of(rest@.skip(pos as int)) == items_of(rest@),
        ensures
            items@ == items_of(rest@),
        decreases n - pos,
    {
        let ghost before = items@;
        match find_from(rest, ',', pos) {
            None => {
                proof {
                    assert(rest@.skip(pos as int) =~= rest@.subrange(pos as int, n as int));
                }
                match parse_segment(rest, pos, n) {
                    Some(it) => items.push(it),
                    None => {},
                }
                proof {
                    assert(items@ + Seq::<ByteRangeSpec>::empty() =~= items@);
                    assert(items@ =~= before + items_of(rest@.skip(pos as int)));
                }
                break ;
            },
            Some(c) => {
                proof {
                    assert(rest@.skip(pos as int).take(c - pos) =~= rest@.subrange(
                        pos as int,
                        c as int,
                    ));
                    assert(rest@.skip(pos as int).skip(c - pos + 1) =~= rest@.skip(c + 1));
                }
                match parse_segment(rest, pos, c) {
                    Some(it) => items.push(it),
                    None => {},
                }
                proof {
                    assert(items@ + items_of(rest@.skip(c + 1)) =~= before + items_of(
                        rest@.skip(pos as int),
                    ));
                }
                pos = c + 1;
            },
        }
    }
    items
}

/// The byte ranges the whole header spells, when its unit is `bytes` and
/// at least one item parses.
pub open spec fn range_header_items(s: Seq<char>) -> Option<Seq<ByteRangeSpec>> {
    match find_first(s, '=') {
        None => None,
        Some(e) => if s.take(e) == "bytes"@ {
            if items_of(s.skip(e + 1)).len() == 0 {
                None
            } else {
                Some(items_of(s.skip(e + 1)))
            }
        } else {
            None
        },
    }
}

/// Whether the header names a nonempty unit other than `bytes`, with a
/// nonempty range part.
pub open spec fn range_header_unsupported(s: Seq<char>) -> bool {
    match find_first(s, '=') {
        None => false,
        Some(e) => s.take(e) != "bytes"@ && s.take(e).len() > 0 && s.skip(e + 1).len() > 0,
    }
}

/// Parses the textual `Range` header. `None` stands for a header that does
/// not parse at all, which a server treats as if no range had been asked
/// for.
pub fn parse_range_header(s: &str) -> (r: Option<RangeHeader>)
    ensures
        range_header_items(s@) matches Some(items) ==> (r matches Some(h) && h matches
            RangeHeader::Bytes(v) && v@ == items),
        range_header_unsupported(s@) ==> (r matches Some(h) && h is Unsupported),
        (range_header_items(s@) is None && !range_header_unsupported(s@)) ==> r is None,
{
    proof {
        assert(s@.skip(0) =~= s@);
    }
    let n = s.unicode_len();
    match find_from(s, '=', 0) {
        None => None,
        Some(e) => {
            let unit = s.substring_char(0, e);
            let rest = s.substring_char(e + 1, n);
            proof {
                assert(unit@ =~= s@.take(e as int));
                assert(rest@ =~= s@.skip(e + 1));
            }
            if str_eq(unit, "bytes") {
                let items = parse_items(rest);
                if items.len() == 0 {
                    None
                } else {
                    Some(RangeHeader::Bytes(items))
                }
            } else if unit.unicode_len() > 0 && rest.unicode_len() > 0 {
                Some(RangeHeader::Unsupported)
            } else {
                None
            }
        },
    }
}

} // verus!
