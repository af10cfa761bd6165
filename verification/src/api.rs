//! The remote listing interface: what one listing holds and how an answer of
//! the service is read.

use crate::attr::FileType;
use crate::error::FetchError;
use vstd::prelude::*;
use vstd::string::*;

verus! {

/// One entry of a remote directory listing.
#[derive(Clone, Debug, PartialEq, Eq)]
pub struct DirectoryEntry {
    /// The entry's name within its directory.
    pub name: String,
    /// `"directory"` for a directory; anything else is taken as a file.
    pub type_: String,
    /// Size in bytes; 0 for directories.
    pub size: u64,
    /// Time of last modification, as the service wrote it.
    pub modified_at: String,
}

/// A directory entry as a plain value.
pub struct EntryView {
    pub name: Seq<char>,
    pub type_: Seq<char>,
    pub size: u64,
    pub modified_at: Seq<char>,
}

impl View for DirectoryEntry {
    type V = EntryView;

    open spec fn view(&self) -> EntryView {
        EntryView {
            name: self.name@,
            type_: self.type_@,
            size: self.size,
            modified_at: self.modified_at@,
        }
    }
}

/// The entries of a listing as plain values, in order.
pub open spec fn entry_views(entries: Seq<DirectoryEntry>) -> Seq<EntryView> {
    entries.map_values(|e: DirectoryEntry| e@)
}

/// The kind that a listing's `type` string stands for: a directory for
/// `"directory"`, a regular file for every other string.
pub open spec fn kind_of(type_: Seq<char>) -> FileType {
    if type_ == "directory"@ {
        FileType::Directory
    } else {
        FileType::RegularFile
    }
}

/// The first status of the success range.
pub const SUCCESS_FIRST: u16 = 200;

/// The last status of the success range.
pub const SUCCESS_LAST: u16 = 299;

/// Whether `status` is in the success range, 200 to 299.
pub open spec fn is_success(status: u16) -> bool {
    SUCCESS_FIRST <= status <= SUCCESS_LAST
}

/// The text that stands for the body of an error answer that could not be
/// read.
pub open spec fn unknown_error() -> Seq<char> {
    "Unknown error"@
}

impl DirectoryEntry {
    /// Returns the kind that the entry's `type` string stands for.
    pub fn kind(&self) -> (kind: FileType)
        ensures
            kind == kind_of(self.type_@),
    {
        let directory = String::from_str("directory");
        if self.type_ == directory {
            FileType::Directory
        } else {
            FileType::RegularFile
        }
    }
}

/// Tells whether an answer with this status carries a listing.
pub fn status_is_success(status: u16) -> (ok: bool)
    ensures
        ok == is_success(status),
{
    SUCCESS_FIRST <= status && status <= SUCCESS_LAST
}

/// Reads the answer of the service.
///
/// `listing` is the decoded body of a success answer, `None` where it could
/// not be decoded; `body` is the text of an error answer, `None` where it
/// could not be read. Each is looked at only for the statuses it belongs to.
pub fn read_answer(
    status: u16,
    listing: Option<Vec<DirectoryEntry>>,
    body: Option<String>,
) -> (outcome: Result<Vec<DirectoryEntry>, FetchError>)
    ensures
        match outcome {
            Ok(entries) => is_success(status) && listing == Some(entries),
            Err(FetchError::MalformedBody) => is_success(status) && listing.is_none(),
            Err(FetchError::Status { code, body: text }) => {
                &&& !is_success(status)
                &&& code == status
                &&& text@ == match body {
                    Some(b) => b@,
                    None => unknown_error(),
                }
            },
            Err(FetchError::Transport) => false,
        },
{
    if status_is_success(status) {
        match listing {
            Some(entries) => Ok(entries),
            None => Err(FetchError::MalformedBody),
        }
    } else {
        let text = match body {
            Some(b) => b,
            None => String::from_str("Unknown error"),
        };
        Err(FetchError::Status { code: status, body: text })
    }
}

} // verus!
