//! What can go wrong in a lookup or a mark command.

use vstd::prelude::*;

verus! {

/// How the host's attempt to open, read, write or flush a ledger failed.
#[derive(Clone, Copy, Debug, PartialEq, Eq, Structural)]
pub enum IoFailure {
    /// The directory or the ledger is not there.
    NotFound,
    /// The host may not open or write the ledger.
    PermissionDenied,
    /// Another request held the ledger for longer than the host waits.
    TimedOut,
    /// Any other failure of the file system.
    Other,
}

/// What a path lacks to name a file that can be marked.
#[derive(Clone, Copy, Debug, PartialEq, Eq, Structural)]
pub enum PathDefect {
    /// The path has no parent directory, so there is no place for a ledger.
    NoParent,
    /// The path does not end in a file name.
    NoFileName,
    /// The file name has no extension.
    NoExtension,
}

/// Why a lookup or a mark command did not succeed.
#[derive(Clone, Copy, Debug, PartialEq, Eq, Structural)]
pub enum Error {
    /// The path cannot name a file with a ledger beside it.
    InvalidPath(PathDefect),
    /// The file's extension is not one of the recognized video extensions.
    UnsupportedExtension,
    /// A ledger that had to be there was absent.
    StoreNotFound,
    /// The host failed to open, read, write or flush the ledger.
    Io(IoFailure),
    /// The ledger's bytes are not valid UTF-8 text.
    Encoding,
}

impl Error {
    /// The sentence that `message` returns for this error.
    pub open spec fn message_text(self) -> Seq<char> {
        match self {
            Error::InvalidPath(PathDefect::NoParent) => "Can't open sidecar for root directory"@,
            Error::InvalidPath(PathDefect::NoFileName) => "Provided path is not a file"@,
            Error::InvalidPath(PathDefect::NoExtension) => "Provided path has no extension"@,
            Error::UnsupportedExtension => "Provided file is not a video file"@,
            Error::StoreNotFound => "The directory has no sidecar"@,
            Error::Io(IoFailure::NotFound) => "The sidecar or its directory was not found"@,
            Error::Io(IoFailure::PermissionDenied) => "Access to the sidecar was denied"@,
            Error::Io(IoFailure::TimedOut) => "The sidecar is in use by another program"@,
            Error::Io(IoFailure::Other) => "The sidecar could not be read or written"@,
            Error::Encoding => "The sidecar is not valid UTF-8 text"@,
        }
    }

    /// A sentence for the user that says what went wrong.
    pub fn message(&self) -> (r: &'static str)
        ensures
            r@ == self.message_text(),
    {
        match self {
            Error::InvalidPath(PathDefect::NoParent) => "Can't open sidecar for root directory",
            Error::InvalidPath(PathDefect::NoFileName) => "Provided path is not a file",
            Error::InvalidPath(PathDefect::NoExtension) => "Provided path has no extension",
            Error::UnsupportedExtension => "Provided file is not a video file",
            Error::StoreNotFound => "The directory has no sidecar",
            Error::Io(IoFailure::NotFound) => "The sidecar or its directory was not found",
            Error::Io(IoFailure::PermissionDenied) => "Access to the sidecar was denied",
            Error::Io(IoFailure::TimedOut) => "The sidecar is in use by another program",
            Error::Io(IoFailure::Other) => "The sidecar could not be read or written",
            Error::Encoding => "The sidecar is not valid UTF-8 text",
        }
    }
}

} // verus!
