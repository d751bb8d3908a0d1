//! Upload planning: the checks on client-supplied filenames before any
//! file is written, and the mapping of decode and copy failures.

use vstd::prelude::*;
use vstd::string::StringExecFns;

use crate::errors::HttpError;
use crate::resolver::{segment_ok, segment_safe, seq_views};
use vstd::string::StrSliceExecFns;

verus! {

/// Every uploaded filename must be a safe single path segment: nonempty,
/// not `.` or `..`, and free of path separators, so a crafted name cannot
/// write outside the target directory.
pub open spec fn upload_names_ok(names: Seq<Seq<char>>) -> bool {
    forall|i: int| 0 <= i < names.len() ==> names[i].len() > 0 && segment_safe(names[i])
}

/// Accepts a batch of client-supplied filenames, or rejects the whole
/// upload when any of them could navigate outside the target directory.
pub fn check_upload_names(names: &Vec<String>) -> (res: Result<(), HttpError>)
    ensures
        upload_names_ok(seq_views(names@)) ==> res is Ok,
        !upload_names_ok(seq_views(names@)) ==> (res matches Err(e) && e matches
            HttpError::BadRequest(m) && m@ == "Invalid upload filename"@),
{
    let ghost nv = seq_views(names@);
    let mut i: usize = 0;
    while i < names.len()
        invariant
            0 <= i <= names@.len(),
            nv == seq_views(names@),
            nv.len() == names@.len(),
            forall|j: int| 0 <= j < i ==> nv[j].len() > 0 && segment_safe(nv[j]),
        decreases names@.len() - i,
    {
        let name = &names[i];
        if name.as_str().unicode_len() == 0 || !segment_ok(name) {
            proof {
                let w = i as int;
                assert(nv[w] == names@[w]@);
                assert(!(nv[w].len() > 0 && segment_safe(nv[w])));
            }
            return Err(HttpError::BadRequest(String::from_str("Invalid upload filename")));
        }
        proof {
            assert(nv[i as int] == names@[i as int]@);
        }
        i += 1;
    }
    Ok(())
}

/// Maps a failed copy of one decoded upload into the error shown to the
/// client.
pub fn copy_failure(detail: String) -> (e: HttpError)
    ensures
        e matches HttpError::UploadFailed(m) && m@ == "Copy file failed: "@ + detail@,
{
    let mut m = String::from_str("Copy file failed: ");
    m.append(detail.as_str());
    HttpError::UploadFailed(m)
}

/// Maps a multipart body that could not be decoded into the error shown
/// to the client.
pub fn decode_failure(detail: String) -> (e: HttpError)
    ensures
        e matches HttpError::UploadFailed(m) && m@ == detail@,
{
    HttpError::UploadFailed(detail)
}

/// The rejection of a POST body that is not multipart at all.
pub fn not_multipart() -> (e: HttpError)
    ensures
        e matches HttpError::BadRequest(m) && m@ == "The request is not multipart"@,
{
    HttpError::BadRequest(String::from_str("The request is not multipart"))
}

} // verus!
