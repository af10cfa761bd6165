//! The ways in which a single request can fail.

use vstd::prelude::*;

verus! {

/// Why a request to the filesystem failed. Every failure is confined to the
/// request that met it and leaves the registry as it was.
#[derive(Clone, Copy, Debug, PartialEq, Eq, Hash, Structural)]
pub enum FsError {
    /// The request named an inode that the registry never issued.
    UnknownInode,
    /// A lookup named a parent inode that the registry never issued.
    StaleHandle,
    /// A lookup named a path that no enumeration has shown yet.
    PathNotFound,
    /// The remote service could not be reached.
    FetchTransport,
    /// The remote service answered with an error status or a body that is
    /// not a listing.
    FetchProtocol,
    /// The request itself cannot be represented, such as a name that is not
    /// valid Unicode.
    MalformedRequest,
    /// The operation is not offered.
    NotSupported,
    /// Serving the request would need more inode numbers, or more directory
    /// offsets, than there are.
    LimitExceeded,
}

/// The kind of error code that the kernel is answered with.
#[derive(Clone, Copy, Debug, PartialEq, Eq, Hash, Structural)]
pub enum Errno {
    /// No such file or directory.
    NoEntry,
    /// Function not implemented.
    NotSupported,
    /// Value too large to be represented.
    Overflow,
}

impl FsError {
    /// The error code that a request which failed like this is answered
    /// with: "not implemented" for an operation that is not offered,
    /// "overflow" where a limit was exceeded, and "no entry" for every other
    /// failure.
    pub open spec fn errno_spec(self) -> Errno {
        match self {
            FsError::NotSupported => Errno::NotSupported,
            FsError::LimitExceeded => Errno::Overflow,
            _ => Errno::NoEntry,
        }
    }

    /// Returns the error code that a request which failed like this is
    /// answered with.
    pub fn errno(&self) -> (code: Errno)
        ensures
            code == self.errno_spec(),
    {
        match self {
            FsError::NotSupported => Errno::NotSupported,
            FsError::LimitExceeded => Errno::Overflow,
            _ => Errno::NoEntry,
        }
    }
}

/// Why a listing could not be fetched from the remote service.
#[derive(Clone, Debug, PartialEq, Eq)]
pub enum FetchError {
    /// The request did not get an answer.
    Transport,
    /// The service answered with a status outside the success range.
    Status { code: u16, body: String },
    /// The service answered with success, but the body is not a listing.
    MalformedBody,
}

impl FetchError {
    /// The error that a request fails with when its fetch fails like this.
    pub open spec fn fs_error(self) -> FsError {
        match self {
            FetchError::Transport => FsError::FetchTransport,
            FetchError::Status { .. } => FsError::FetchProtocol,
            FetchError::MalformedBody => FsError::FetchProtocol,
        }
    }

    /// Returns the error that a request fails with when its fetch fails like
    /// this.
    pub fn to_fs_error(&self) -> (e: FsError)
        ensures
            e == self.fs_error(),
    {
        match self {
            FetchError::Transport => FsError::FetchTransport,
            FetchError::Status { .. } => FsError::FetchProtocol,
            FetchError::MalformedBody => FsError::FetchProtocol,
        }
    }
}

} // verus!
