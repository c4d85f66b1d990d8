use vstd::prelude::*;

verus! {

/// Why an extraction attempt was abandoned.
///
/// Every variant is terminal for the call that produced it; retry policy
/// belongs to the caller.
#[derive(Debug, Clone, Copy, PartialEq, Eq, Structural)]
pub enum ExtractError {
    /// The bytes are not an EPUB or DOCX container.  Not retryable.
    UnsupportedFormat,
    /// The bytes could not be opened as a ZIP archive.  Not retryable.
    InvalidArchive,
    /// An archive member could not be decompressed.  Not retryable.
    ReadFailure,
    /// An archive member holding markup was not valid UTF-8.  Not retryable.
    DecodeError,
    /// An image upload to the object store failed.  Retryable at the
    /// caller's discretion; the whole extraction is abandoned rather than
    /// returning a partially relocated document.
    StorageFailure,
}

impl ExtractError {
    /// The description reported for this error.
    pub open spec fn spec_message(self) -> Seq<char> {
        match self {
            ExtractError::UnsupportedFormat => "unsupported file format: only EPUB and DOCX are supported"@,
            ExtractError::InvalidArchive => "the file could not be opened as a ZIP archive"@,
            ExtractError::ReadFailure => "an archive member could not be read"@,
            ExtractError::DecodeError => "an archive member holding markup was not valid UTF-8"@,
            ExtractError::StorageFailure => "an image upload to the object store failed"@,
        }
    }

    /// A human-readable description of the error.
    pub fn message(&self) -> (r: &'static str)
        ensures
            r@ == self.spec_message(),
    {
        match self {
            ExtractError::UnsupportedFormat => "unsupported file format: only EPUB and DOCX are supported",
            ExtractError::InvalidArchive => "the file could not be opened as a ZIP archive",
            ExtractError::ReadFailure => "an archive member could not be read",
            ExtractError::DecodeError => "an archive member holding markup was not valid UTF-8",
            ExtractError::StorageFailure => "an image upload to the object store failed",
        }
    }
}

} // verus!
