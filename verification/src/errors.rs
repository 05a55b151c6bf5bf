//! Error types surfaced by upload validation.

use vstd::prelude::*;

verus! {

/// The reasons upload validation can reject a submission.
#[derive(PartialEq, Eq, Structural, Clone, Copy, Debug)]
pub enum ValidationError {
    /// No file type is registered for the filename's extension.
    UnsupportedFileType,
    /// The submission carries no filename.
    NoFilename,
    /// The filename's extension is not in the descriptor's extension set.
    UnsupportedExtension,
    /// The declared content type is not in the descriptor's content-type
    /// set.
    UnsupportedContentType,
    /// The payload's cumulative length exceeds the descriptor's size bound.
    PayloadTooLarge,
    /// The payload's first bytes match none of the descriptor's magic
    /// numbers.
    BadSignature,
}

/// A validation failure as the HTTP boundary reports it: a status code and
/// a message.
pub struct FileValidationError {
    pub code: u16,
    pub message: String,
}

impl ValidationError {
    /// The HTTP status category of this error: bad request for a missing
    /// file or filename, payload-too-large for an oversized payload, and
    /// unsupported-media-type for the rest.
    pub open spec fn spec_status_code(&self) -> u16 {
        match self {
            ValidationError::UnsupportedFileType => 415,
            ValidationError::NoFilename => 400,
            ValidationError::UnsupportedExtension => 415,
            ValidationError::UnsupportedContentType => 415,
            ValidationError::PayloadTooLarge => 413,
            ValidationError::BadSignature => 415,
        }
    }

    /// Returns the HTTP status code of this error.
    pub fn status_code(&self) -> (r: u16)
        ensures
            r == self.spec_status_code(),
    {
        match self {
            ValidationError::UnsupportedFileType => 415,
            ValidationError::NoFilename => 400,
            ValidationError::UnsupportedExtension => 415,
            ValidationError::UnsupportedContentType => 415,
            ValidationError::PayloadTooLarge => 413,
            ValidationError::BadSignature => 415,
        }
    }

    /// The fixed message each error carries.
    pub open spec fn spec_message(&self) -> Seq<char> {
        match self {
            ValidationError::UnsupportedFileType => "Unsupported file extension"@,
            ValidationError::NoFilename => "No filename provided"@,
            ValidationError::UnsupportedExtension => "Invalid file extension"@,
            ValidationError::UnsupportedContentType => "Invalid content type"@,
            ValidationError::PayloadTooLarge => "File exceeds maximum allowed size"@,
            ValidationError::BadSignature => "Invalid file format"@,
        }
    }

    /// Returns the message of this error.
    pub fn message(&self) -> (r: String)
        ensures
            r@ == self.spec_message(),
    {
        match self {
            ValidationError::UnsupportedFileType => "Unsupported file extension".to_owned(),
            ValidationError::NoFilename => "No filename provided".to_owned(),
            ValidationError::UnsupportedExtension => "Invalid file extension".to_owned(),
            ValidationError::UnsupportedContentType => "Invalid content type".to_owned(),
            ValidationError::PayloadTooLarge => "File exceeds maximum allowed size".to_owned(),
            ValidationError::BadSignature => "Invalid file format".to_owned(),
        }
    }

    /// Packs this error into the status-code-and-message form the HTTP
    /// boundary returns.
    pub fn describe(&self) -> (r: FileValidationError)
        ensures
            r.code == self.spec_status_code(),
            r.message@ == self.spec_message(),
    {
        FileValidationError { code: self.status_code(), message: self.message() }
    }
}

} // verus!
