//! Byte-range computation: turning one parsed `Range` item and a known file
//! length into a concrete (offset, length) slice, or a 416 error.

use vstd::prelude::*;
use vstd::string::StringExecFns;

use crate::errors::HttpError;
use crate::fmt::{spec_dec, u64_to_dec};

verus! {

/// One item of a `bytes=` range header: `x-y`, `x-`, or `-x` (suffix).
#[derive(Clone, Copy, PartialEq, Eq, Structural, Debug)]
pub enum ByteRangeSpec {
    /// `x-y`: the bytes from offset `x` through offset `y`, inclusive.
    FromTo(u64, u64),
    /// `x-`: all bytes from offset `x` to the end.
    AllFrom(u64),
    /// `-x`: the last `x` bytes.
    Last(u64),
}

/// The parsed `Range` request header: a list of byte ranges, or a range in
/// a unit this server does not know.
#[derive(Clone, Debug)]
pub enum RangeHeader {
    Bytes(Vec<ByteRangeSpec>),
    Unsupported,
}

/// A concrete slice of a file: `length` bytes starting at `offset`.
#[derive(Clone, Copy, PartialEq, Eq, Structural, Debug)]
pub struct ByteSlice {
    pub offset: u64,
    pub length: u64,
}

/// What a range item resolves to against a file of length `len`:
/// `None` means the range is not satisfiable (HTTP 416).
///
/// - `FromTo(x, y)` fails if `x >= len` or `x > y`; otherwise `y` is clamped
///   to `len - 1` and the slice is `(x, y - x + 1)`.
/// - `AllFrom(x)` fails if `x >= len`; otherwise the slice is `(x, len - x)`.
/// - `Last(x)` never fails: `x` is clamped to `len` and the slice is
///   `(len - x, x)`.
pub open spec fn resolved_range(r: ByteRangeSpec, len: u64) -> Option<(int, int)> {
    match r {
        ByteRangeSpec::FromTo(x, y) => {
            if x >= len || x > y {
                None
            } else {
                let hi = if y >= len { len - 1 } else { y as int };
                Some((x as int, hi - x + 1))
            }
        },
        ByteRangeSpec::AllFrom(x) => {
            if x >= len {
                None
            } else {
                Some((x as int, len - x))
            }
        },
        ByteRangeSpec::Last(x) => {
            let n = if x > len { len as int } else { x as int };
            Some((len - n, n))
        },
    }
}

/// The message reported when a range is not satisfiable.
pub open spec fn range_error_msg(r: ByteRangeSpec, len: u64) -> Seq<char> {
    match r {
        ByteRangeSpec::FromTo(x, y) => "Invalid range(x="@ + spec_dec(x as int) + ", y="@
            + spec_dec(y as int) + ")"@,
        ByteRangeSpec::AllFrom(x) => "Range::AllFrom to large (x="@ + spec_dec(x as int)
            + "), Content-Length: "@ + spec_dec(len as int) + ")"@,
        ByteRangeSpec::Last(_) => Seq::empty(),
    }
}

/// Resolves one range item against a file of length `len`.
///
/// Returns the concrete slice exactly as `resolved_range` states, or a
/// `RangeNotSatisfiable` error carrying `range_error_msg`.
pub fn resolve_byte_range(r: &ByteRangeSpec, len: u64) -> (res: Result<ByteSlice, HttpError>)
    ensures
        resolved_range(*r, len) matches Some(sl) ==> (res matches Ok(b) && b.offset == sl.0
            && b.length == sl.1),
        resolved_range(*r, len) is None ==> (res matches Err(e) && e matches
            HttpError::RangeNotSatisfiable(m) && m@ == range_error_msg(*r, len)),
{
    match r {
        ByteRangeSpec::FromTo(x, y) => {
            let x = *x;
            let y = *y;
            if x >= len || x > y {
                let mut m = String::from_str("Invalid range(x=");
                m.append(u64_to_dec(x).as_str());
                m.append(", y=");
                m.append(u64_to_dec(y).as_str());
                m.append(")");
                assert(m@ =~= range_error_msg(*r, len));
                Err(HttpError::RangeNotSatisfiable(m))
            } else {
                let hi = if y >= len { len - 1 } else { y };
                Ok(ByteSlice { offset: x, length: hi - x + 1 })
            }
        },
        ByteRangeSpec::AllFrom(x) => {
            let x = *x;
            if x >= len {
                let mut m = String::from_str("Range::AllFrom to large (x=");
                m.append(u64_to_dec(x).as_str());
                m.append("), Content-Length: ");
                m.append(u64_to_dec(len).as_str());
                m.append(")");
                assert(m@ =~= range_error_msg(*r, len));
                Err(HttpError::RangeNotSatisfiable(m))
            } else {
                Ok(ByteSlice { offset: x, length: len - x })
            }
        },
        ByteRangeSpec::Last(x) => {
            let n = if *x > len { len } else { *x };
            Ok(ByteSlice { offset: len - n, length: n })
        },
    }
}

/// A valid from-to range (`x < len`, `x <= y`) always resolves, with offset
/// `x` and length `min(y, len - 1) - x + 1`; any other from-to range is not
/// satisfiable.
pub proof fn lemma_from_to_resolution(x: u64, y: u64, len: u64)
    ensures
        x < len && x <= y ==> (resolved_range(ByteRangeSpec::FromTo(x, y), len) matches Some(sl)
            && sl.0 == x && sl.1 == (if y < len - 1 { y as int } else { len - 1 }) - x + 1),
        x >= len || x > y ==> resolved_range(ByteRangeSpec::FromTo(x, y), len) is None,
{
}

/// An open-ended range `x-` is not satisfiable exactly when `x >= len`;
/// otherwise it resolves to offset `x` and length `len - x`.
pub proof fn lemma_all_from_resolution(x: u64, len: u64)
    ensures
        x >= len ==> resolved_range(ByteRangeSpec::AllFrom(x), len) is None,
        x < len ==> (resolved_range(ByteRangeSpec::AllFrom(x), len) matches Some(sl) && sl.0 == x
            && sl.1 == len - x),
{
}

/// A suffix range `-x` with `x > len` behaves exactly as `-len` (the whole
/// file), and in every case resolves to offset `len - min(x, len)` and
/// length `min(x, len)`.
pub proof fn lemma_last_resolution(x: u64, len: u64)
    ensures
        x > len ==> resolved_range(ByteRangeSpec::Last(x), len) == resolved_range(
            ByteRangeSpec::Last(len),
            len,
        ),
        resolved_range(ByteRangeSpec::Last(x), len) matches Some(sl) && sl.0 == len - (
        if x < len {
            x as int
        } else {
            len as int
        }) && sl.1 == (if x < len {
            x as int
        } else {
            len as int
        }),
{
}

} // verus!
