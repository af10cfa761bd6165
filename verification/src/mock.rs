//! The listings of the mock remote service: a fixed root directory, one
//! fixed subdirectory, and an empty listing for every other path.

use crate::api::{entry_views, DirectoryEntry, EntryView};
use vstd::prelude::*;
use vstd::string::*;

verus! {

/// The listing that the mock service gives of its root.
pub open spec fn root_listing() -> Seq<EntryView> {
    seq![
        EntryView {
            name: "Documents"@,
            type_: "directory"@,
            size: 0,
            modified_at: "2024-05-22T10:00:00Z"@,
        },
        EntryView {
            name: "image.jpg"@,
            type_: "file"@,
            size: 102400,
            modified_at: "2024-05-22T11:30:00Z"@,
        },
        EntryView {
            name: "folder1"@,
            type_: "directory"@,
            size: 0,
            modified_at: "2024-05-23T12:00:00Z"@,
        },
    ]
}

/// The listing that the mock service gives of `path`: one file for
/// `"folder1"`, nothing for any other path.
pub open spec fn path_listing(path: Seq<char>) -> Seq<EntryView> {
    if path == "folder1"@ {
        seq![
            EntryView {
                name: "file1.txt"@,
                type_: "file"@,
                size: 1024,
                modified_at: "2024-05-23T12:05:00Z"@,
            },
        ]
    } else {
        Seq::empty()
    }
}

/// Makes one entry of a listing.
fn entry(name: &str, type_: &str, size: u64, modified_at: &str) -> (e: DirectoryEntry)
    ensures
        e@ == (EntryView { name: name@, type_: type_@, size, modified_at: modified_at@ }),
{
    DirectoryEntry {
        name: String::from_str(name),
        type_: String::from_str(type_),
        size,
        modified_at: String::from_str(modified_at),
    }
}

/// Returns the mock service's listing of its root.
pub fn list_root() -> (entries: Vec<DirectoryEntry>)
    ensures
        entry_views(entries@) == root_listing(),
{
    let mut entries: Vec<DirectoryEntry> = Vec::new();
    entries.push(entry("Documents", "directory", 0, "2024-05-22T10:00:00Z"));
    entries.push(entry("image.jpg", "file", 102400, "2024-05-22T11:30:00Z"));
    entries.push(entry("folder1", "directory", 0, "2024-05-23T12:00:00Z"));
    assert(entry_views(entries@) =~= root_listing());
    entries
}

/// Returns the mock service's listing of `path`. A path that the service
/// does not know gets an empty listing, not an error.
pub fn list_path(path: &str) -> (entries: Vec<DirectoryEntry>)
    ensures
        entry_views(entries@) == path_listing(path@),
{
    let mut entries: Vec<DirectoryEntry> = Vec::new();
    let known = String::from_str("folder1");
    let asked = String::from_str(path);
    if asked == known {
        entries.push(entry("file1.txt", "file", 1024, "2024-05-23T12:05:00Z"));
    }
    assert(entry_views(entries@) =~= path_listing(path@));
    entries
}

} // verus!
