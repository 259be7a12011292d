//! Why an install or a removal can fail.

use vstd::prelude::*;

verus! {

/// Why an install or a removal failed.
#[derive(Debug, Clone, Copy, PartialEq, Eq, Structural)]
pub enum InstallError {
    /// The archive could not be fetched: the transfer failed or the server
    /// answered with a status outside 200..=299.
    DownloadFailed,
    /// The archive's file name has none of the supported suffixes.
    UnsupportedFormat,
    /// The unpacked archive holds no directory at its top level.
    NoPayloadDirectory,
    /// There is nothing to remove under the given name.
    NotFound,
    /// A filesystem operation failed.
    Filesystem,
    /// No directory override is set and the user's home directory is not
    /// known.
    HomeUnknown,
}

impl InstallError {
    /// What to tell the user about the error.
    pub open spec fn message(self) -> Seq<char> {
        match self {
            InstallError::DownloadFailed => "Failed to download file"@,
            InstallError::UnsupportedFormat => "Unsupported archive format"@,
            InstallError::NoPayloadDirectory => "No directory found in extracted archive"@,
            InstallError::NotFound => "Tool version not found"@,
            InstallError::Filesystem => "Filesystem operation failed"@,
            InstallError::HomeUnknown => "Could not determine home directory"@,
        }
    }

    /// A text for the user that says what went wrong.
    pub fn describe(&self) -> (r: &'static str)
        ensures
            r@ == self.message(),
    {
        match self {
            InstallError::DownloadFailed => "Failed to download file",
            InstallError::UnsupportedFormat => "Unsupported archive format",
            InstallError::NoPayloadDirectory => "No directory found in extracted archive",
            InstallError::NotFound => "Tool version not found",
            InstallError::Filesystem => "Filesystem operation failed",
            InstallError::HomeUnknown => "Could not determine home directory",
        }
    }
}

} // verus!
