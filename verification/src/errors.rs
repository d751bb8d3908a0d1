//! The error taxonomy of the server core. Every failure the pipeline can
//! produce is one of these variants; each maps to exactly one HTTP status
//! code and carries a message fit for direct client display.

use vstd::prelude::*;

verus! {

/// A request-processing failure.
#[derive(Debug)]
pub enum HttpError {
    /// The resolved path does not exist, or escapes the server root.
    NotFound(String),
    /// The path exists but the filesystem refused to read it.
    PermissionOrIo(String),
    /// The request itself is malformed (unknown sort field or order,
    /// malformed percent-encoding, non-multipart upload body).
    BadRequest(String),
    /// An out-of-bounds or malformed byte range, or a failed `If-Match`
    /// precondition on a range request.
    RangeNotSatisfiable(String),
    /// A multipart upload could not be decoded or persisted.
    UploadFailed(String),
}

impl HttpError {
    /// The HTTP status code this error is reported with.
    pub open spec fn spec_status(&self) -> u16 {
        match self {
            HttpError::NotFound(_) => 404,
            HttpError::PermissionOrIo(_) => 500,
            HttpError::BadRequest(_) => 400,
            HttpError::RangeNotSatisfiable(_) => 416,
            HttpError::UploadFailed(_) => 500,
        }
    }

    /// The message carried by the error.
    pub open spec fn spec_message(&self) -> Seq<char> {
        match self {
            HttpError::NotFound(m) => m@,
            HttpError::PermissionOrIo(m) => m@,
            HttpError::BadRequest(m) => m@,
            HttpError::RangeNotSatisfiable(m) => m@,
            HttpError::UploadFailed(m) => m@,
        }
    }

    pub fn status(&self) -> (s: u16)
        ensures
            s == self.spec_status(),
    {
        match self {
            HttpError::NotFound(_) => 404,
            HttpError::PermissionOrIo(_) => 500,
            HttpError::BadRequest(_) => 400,
            HttpError::RangeNotSatisfiable(_) => 416,
            HttpError::UploadFailed(_) => 500,
        }
    }

    pub fn message(self) -> (m: String)
        ensures
            m@ == self.spec_message(),
    {
        match self {
            HttpError::NotFound(m) => m,
            HttpError::PermissionOrIo(m) => m,
            HttpError::BadRequest(m) => m,
            HttpError::RangeNotSatisfiable(m) => m,
            HttpError::UploadFailed(m) => m,
        }
    }
}

} // verus!
