//! The filesystem bridge: what each kernel request is answered with.
//!
//! The bridge performs no I/O. A directory read is served in two steps: the
//! bridge first says for which remote path the listing has to be fetched, the
//! caller fetches it, and the bridge merges what came back and returns the
//! entries to hand to the kernel from the offset on. No enumeration is kept
//! between reads: a read that continues at a later offset fetches the listing
//! again and goes on at that position of it.

use crate::api::{entry_views, DirectoryEntry, EntryView};
use crate::attr::{FileAttr, FileType, Timestamps};
use crate::error::{FetchError, FsError};
use crate::laws::{law_extends_reflexive, law_merge_extends};
use crate::path::{child_path, join_child, remote_path, to_remote_path};
use crate::registry::{listed_stamps, InodeRegistry, RegistryView};
use vstd::prelude::*;
use vstd::string::*;

verus! {

/// The number of entries that every directory starts with: `.` and `..`.
pub const SYNTHETIC_ENTRIES: i64 = 2;

/// One entry of a directory as the kernel is told of it.
#[derive(Clone, Debug, PartialEq, Eq)]
pub struct ReplyEntry {
    /// The entry's inode.
    pub ino: u64,
    /// The offset at which a later read continues after this entry.
    pub offset: i64,
    /// The entry's kind.
    pub kind: FileType,
    /// The entry's name.
    pub name: String,
}

/// A reply entry as a plain value.
pub struct ReplyEntryView {
    pub ino: u64,
    pub offset: i64,
    pub kind: FileType,
    pub name: Seq<char>,
}

impl View for ReplyEntry {
    type V = ReplyEntryView;

    open spec fn view(&self) -> ReplyEntryView {
        ReplyEntryView { ino: self.ino, offset: self.offset, kind: self.kind, name: self.name@ }
    }
}

/// The entries of a reply as plain values, in order.
pub open spec fn reply_views(reply: Seq<ReplyEntry>) -> Seq<ReplyEntryView> {
    reply.map_values(|e: ReplyEntry| e@)
}

/// One position of a directory's enumeration.
pub struct Item {
    pub ino: u64,
    pub kind: FileType,
    pub name: Seq<char>,
}

/// The two entries that every enumeration starts with: `.` for the directory
/// itself and `..` for its parent.
pub open spec fn synthetic_items(ino: u64, parent: u64) -> Seq<Item> {
    seq![
        Item { ino, kind: FileType::Directory, name: seq!['.'] },
        Item { ino: parent, kind: FileType::Directory, name: seq!['.', '.'] },
    ]
}

/// The positions that a merged listing adds to an enumeration: for each
/// entry the inode that its upsert returned, the kind of that inode's record,
/// and the entry's name.
pub open spec fn fetched_items(
    r: RegistryView,
    dir: Seq<char>,
    entries: Seq<EntryView>,
    stamps: Seq<Timestamps>,
) -> Seq<Item> {
    Seq::new(
        entries.len(),
        |i: int|
            Item {
                ino: r.listed(dir, entries, stamps, i).0,
                kind: r.listed(dir, entries, stamps, i).1.kind,
                name: entries[i].name,
            },
    )
}

/// The positions that the outcome of a merge adds to an enumeration: for
/// each entry the inode that came back for it, the kind of the record that
/// came back for it, and the entry's name.
pub open spec fn listed_items(entries: Seq<EntryView>, listed: Seq<(u64, FileAttr)>) -> Seq<Item> {
    Seq::new(
        entries.len(),
        |i: int| Item { ino: listed[i].0, kind: listed[i].1.kind, name: entries[i].name },
    )
}

/// The position at which a read from `offset` starts in an enumeration of
/// `len` positions. A negative offset, or one past the end, starts at the
/// end.
pub open spec fn start_of(offset: i64, len: nat) -> int {
    if 0 <= offset <= len {
        offset as int
    } else {
        len as int
    }
}

/// The positions of an enumeration as reply entries: each with the offset of
/// the position after it, so that a later read from that offset goes on with
/// the next entry.
pub open spec fn numbered(all: Seq<Item>) -> Seq<ReplyEntryView> {
    Seq::new(
        all.len(),
        |i: int|
            ReplyEntryView {
                ino: all[i].ino,
                offset: (i + 1) as i64,
                kind: all[i].kind,
                name: all[i].name,
            },
    )
}

/// What a read from `offset` returns of the enumeration `all`: the entries
/// from the start position on.
pub open spec fn reply_from(all: Seq<Item>, offset: i64) -> Seq<ReplyEntryView> {
    numbered(all).skip(start_of(offset, all.len()))
}

/// Whether a listing of the directory `dir` can be served: an offset is left
/// for each position of the enumeration, and an inode number for each distinct
/// path of the listing that is not bound.
pub open spec fn listing_fits(r: RegistryView, dir: Seq<char>, entries: Seq<EntryView>) -> bool {
    entries.len() + SYNTHETIC_ENTRIES <= i64::MAX && r.has_room_for(dir, entries)
}

/// What a lookup of `name` in the directory `parent` is answered with.
pub open spec fn lookup_outcome(r: RegistryView, parent: u64, name: Option<Seq<char>>) -> Result<
    FileAttr,
    FsError,
> {
    match name {
        None => Err(FsError::MalformedRequest),
        Some(n) => match r.path_of(parent) {
            None => Err(FsError::StaleHandle),
            Some(dir) => match r.inode_of(child_path(dir, n)) {
                None => Err(FsError::PathNotFound),
                Some(ino) => match r.attr_of(ino) {
                    None => Err(FsError::PathNotFound),
                    Some(attr) => Ok(attr),
                },
            },
        },
    }
}

/// What an attribute query for `ino` is answered with.
pub open spec fn getattr_outcome(r: RegistryView, ino: u64) -> Result<FileAttr, FsError> {
    match r.attr_of(ino) {
        None => Err(FsError::UnknownInode),
        Some(attr) => Ok(attr),
    }
}

/// What the first step of a directory read of `ino` yields: the remote path
/// whose listing is to be fetched, at whatever offset the read starts.
pub open spec fn plan_outcome(r: RegistryView, ino: u64) -> Result<Seq<char>, FsError> {
    match r.path_of(ino) {
        None => Err(FsError::UnknownInode),
        Some(dir) => Ok(remote_path(dir)),
    }
}

/// What was fetched for a directory read, as plain values: the listing, or
/// the error that the failed fetch makes the read fail with.
pub open spec fn fetched_view(fetched: Result<Vec<DirectoryEntry>, FetchError>) -> Result<
    Seq<EntryView>,
    FsError,
> {
    match fetched {
        Err(e) => Err(e.fs_error()),
        Ok(entries) => Ok(entry_views(entries@)),
    }
}

/// The answer to a directory read as plain values.
pub open spec fn answer_view(answer: Result<Vec<ReplyEntry>, FsError>) -> Result<
    Seq<ReplyEntryView>,
    FsError,
> {
    match answer {
        Ok(reply) => Ok(reply_views(reply@)),
        Err(e) => Err(e),
    }
}

/// Whether `answer` and the registry `after` are what a directory read of
/// `ino`, whose path is `dir`, leads to where the listing `entries` was
/// fetched and fits: for some times, one for each entry, the registry is the
/// one that the merge at those times gives, and the answer is read from the
/// synthetic entries followed by the merged ones.
pub open spec fn merge_served(
    before: RegistryView,
    after: RegistryView,
    ino: u64,
    dir: Seq<char>,
    offset: i64,
    entries: Seq<EntryView>,
    answer: Result<Seq<ReplyEntryView>, FsError>,
) -> bool {
    exists|stamps: Seq<Timestamps>|
        #![trigger before.merged(dir, entries, stamps)]
        stamps.len() == entries.len() && after == before.merged(dir, entries, stamps) && answer
            == Ok::<Seq<ReplyEntryView>, FsError>(
            reply_from(
                synthetic_items(ino, before.parent_inode(dir)) + fetched_items(
                    before,
                    dir,
                    entries,
                    stamps,
                ),
                offset,
            ),
        )
}

/// Whether `answer` and the registry `after` are what a directory read of
/// `ino` from `offset` leads to from the registry `before`, given what was
/// fetched.
///
/// An inode that was never issued fails the read. So does a failed fetch,
/// and a listing that does not fit. Each failure leaves the registry as it
/// was. The entries of a listing are merged into the registry, at whatever
/// times the clock gave, and follow the two synthetic entries in the listing's
/// order; the answer holds that enumeration from the offset on.
pub open spec fn readdir_served(
    before: RegistryView,
    after: RegistryView,
    ino: u64,
    offset: i64,
    fetched: Result<Seq<EntryView>, FsError>,
    answer: Result<Seq<ReplyEntryView>, FsError>,
) -> bool {
    match before.path_of(ino) {
        None => after == before && answer == Err::<Seq<ReplyEntryView>, FsError>(
            FsError::UnknownInode,
        ),
        Some(dir) => match fetched {
            Err(e) => after == before && answer == Err::<Seq<ReplyEntryView>, FsError>(e),
            Ok(entries) => if listing_fits(before, dir, entries) {
                merge_served(before, after, ino, dir, offset, entries, answer)
            } else {
                after == before && answer == Err::<Seq<ReplyEntryView>, FsError>(
                    FsError::LimitExceeded,
                )
            },
        },
    }
}

/// The filesystem bridge: the address of the remote service and the registry.
pub struct RemoteFs {
    server_addr: String,
    registry: InodeRegistry,
}

/// The bridge as a mathematical value.
pub struct FsView {
    pub server_addr: Seq<char>,
    pub registry: RegistryView,
}

impl View for RemoteFs {
    type V = FsView;

    closed spec fn view(&self) -> FsView {
        FsView { server_addr: self.server_addr@, registry: self.registry@ }
    }
}

impl RemoteFs {
    /// The invariant of the bridge: that of its registry.
    pub open spec fn wf(&self) -> bool {
        self@.registry.wf()
    }

    /// Makes a bridge to the service at `server_addr`, with a registry that
    /// holds the root alone.
    pub fn new(server_addr: &str) -> (fs: RemoteFs)
        ensures
            fs.wf(),
            fs@.server_addr == server_addr@,
            fs@.registry == RegistryView::initial(
                fs@.registry.attrs[crate::registry::ROOT_INODE].stamps(),
            ),
            fs@.registry.inode_of(crate::path::root_path()) == Some(crate::registry::ROOT_INODE),
    {
        RemoteFs { server_addr: String::from_str(server_addr), registry: InodeRegistry::new() }
    }

    /// Makes a bridge to the service at `server_addr` over a registry that
    /// exists already.
    pub fn with_registry(server_addr: &str, registry: InodeRegistry) -> (fs: RemoteFs)
        requires
            registry.wf(),
        ensures
            fs.wf(),
            fs@.server_addr == server_addr@,
            fs@.registry == registry@,
    {
        RemoteFs { server_addr: String::from_str(server_addr), registry }
    }

    /// Called when the filesystem is mounted. Always succeeds and changes
    /// nothing.
    pub fn init(&mut self) -> (r: Result<(), i32>)
        ensures
            r.is_ok(),
            *final(self) == *old(self),
    {
        Ok(())
    }

    /// Called when the filesystem is unmounted. Changes nothing.
    pub fn destroy(&mut self)
        ensures
            *final(self) == *old(self),
    {
    }

    /// Returns the address of the remote service.
    pub fn server_addr(&self) -> (addr: &str)
        ensures
            addr@ == self@.server_addr,
    {
        self.server_addr.as_str()
    }

    /// Returns the registry.
    pub fn registry(&self) -> (registry: &InodeRegistry)
        ensures
            registry@ == self@.registry,
    {
        &self.registry
    }

    /// Looks `name` up in the directory `parent_ino`.
    ///
    /// `name` is `None` where the kernel's name is not valid Unicode. Nothing
    /// is fetched: a child that no directory read has shown is not found.
    pub fn lookup(&self, parent_ino: u64, name: Option<&str>) -> (r: Result<FileAttr, FsError>)
        ensures
            r == lookup_outcome(
                self@.registry,
                parent_ino,
                match name {
                    Some(n) => Some(n@),
                    None => None,
                },
            ),
            self.wf() && r.is_ok() ==> name.is_some() && self@.registry.path_of(parent_ino).is_some()
                && self@.registry.inode_of(
                child_path(self@.registry.path_of(parent_ino).unwrap(), name.unwrap()@),
            ) == Some(r.unwrap().ino),
    {
        let child = match name {
            Some(n) => n,
            None => {
                return Err(FsError::MalformedRequest);
            },
        };
        let parent_path = match self.registry.resolve_path_of(parent_ino) {
            Ok(p) => p,
            Err(_) => {
                return Err(FsError::StaleHandle);
            },
        };
        let full_path = join_child(parent_path.as_str(), child);
        match self.registry.resolve_inode_of(full_path.as_str()) {
            Some(ino) => {
                proof {
                    if self.wf() {
                        assert(self@.registry.inodes.contains_key(full_path@));
                        assert(self@.registry.paths.contains_key(ino));
                        assert(self@.registry.attrs.contains_key(ino));
                    }
                }
                match self.registry.get_attributes(ino) {
                    Some(attr) => Ok(attr),
                    None => Err(FsError::PathNotFound),
                }
            },
            None => Err(FsError::PathNotFound),
        }
    }

    /// Returns the attribute record of `ino`, or `UnknownInode`.
    pub fn getattr(&self, ino: u64) -> (r: Result<FileAttr, FsError>)
        ensures
            r == getattr_outcome(self@.registry, ino),
    {
        match self.registry.get_attributes(ino) {
            Some(attr) => Ok(attr),
            None => Err(FsError::UnknownInode),
        }
    }

    /// Reads file contents. Not offered: always fails with `NotSupported`.
    pub fn read(&self, ino: u64, offset: i64, size: u32) -> (r: Result<Vec<u8>, FsError>)
        ensures
            r == Err::<Vec<u8>, FsError>(FsError::NotSupported),
    {
        Err(FsError::NotSupported)
    }

    /// Opens a file. Not offered: always fails with `NotSupported`.
    pub fn open(&self, ino: u64, flags: i32) -> (r: Result<u64, FsError>)
        ensures
            r == Err::<u64, FsError>(FsError::NotSupported),
    {
        Err(FsError::NotSupported)
    }

    /// The first step of a directory read of `ino`: says what to fetch.
    ///
    /// Fails with `UnknownInode` where the inode was never issued. Returns the
    /// remote path whose listing is to be fetched, whatever the offset of the
    /// read: a read that continues at a later offset needs the listing too.
    pub fn readdir_plan(&self, ino: u64) -> (r: Result<String, FsError>)
        ensures
            match r {
                Ok(p) => plan_outcome(self@.registry, ino) == Ok::<Seq<char>, FsError>(p@),
                Err(e) => plan_outcome(self@.registry, ino) == Err::<Seq<char>, FsError>(e),
            },
    {
        match self.registry.resolve_path_of(ino) {
            Ok(dir) => Ok(to_remote_path(dir.as_str())),
            Err(e) => Err(e),
        }
    }

    /// The second step of a directory read of `ino` from `offset`: merges
    /// what was fetched and returns the entries to hand to the kernel, in
    /// order, until the kernel's buffer is full.
    ///
    /// Each entry carries the offset of the position after it. A read that
    /// stopped at a full buffer goes on from the offset of the last entry
    /// that was taken.
    pub fn readdir(
        &mut self,
        ino: u64,
        offset: i64,
        fetched: Result<Vec<DirectoryEntry>, FetchError>,
    ) -> (r: Result<Vec<ReplyEntry>, FsError>)
        requires
            old(self).wf(),
        ensures
            final(self).wf(),
            final(self)@.server_addr == old(self)@.server_addr,
            final(self)@.registry.extends(old(self)@.registry),
            readdir_served(
                old(self)@.registry,
                final(self)@.registry,
                ino,
                offset,
                fetched_view(fetched),
                answer_view(r),
            ),
    {
        proof {
            law_extends_reflexive(self@.registry);
        }
        let ghost before = self@.registry;
        let dir = match self.registry.resolve_path_of(ino) {
            Ok(p) => p,
            Err(e) => {
                return Err(e);
            },
        };
        let entries = match fetched {
            Ok(entries) => entries,
            Err(e) => {
                return Err(e.to_fs_error());
            },
        };
        if entries.len() as u64 > (i64::MAX - SYNTHETIC_ENTRIES) as u64 {
            return Err(FsError::LimitExceeded);
        }
        let parent = self.registry.parent_inode(dir.as_str());
        let listed = match self.registry.merge_listing(dir.as_str(), &entries) {
            Ok(l) => l,
            Err(e) => {
                return Err(e);
            },
        };
        let reply = entries_from(enumerate(ino, parent, &entries, &listed), offset);
        proof {
            let evs = entry_views(entries@);
            let stamps = listed_stamps(listed@);
            law_merge_extends(before, dir@, evs, stamps);
            assert(listed_items(evs, listed@) =~= fetched_items(before, dir@, evs, stamps));
            assert(merge_served(
                before,
                self@.registry,
                ino,
                dir@,
                offset,
                evs,
                Ok(reply_views(reply@)),
            ));
        }
        Ok(reply)
    }
}

/// Builds the enumeration of a directory: `.` for the directory itself, `..`
/// for its parent, and then one entry for each entry of the merged listing,
/// with the inode and the kind that its upsert returned. Each entry carries
/// the offset of the position after it.
fn enumerate(
    ino: u64,
    parent: u64,
    entries: &Vec<DirectoryEntry>,
    listed: &Vec<(u64, FileAttr)>,
) -> (all: Vec<ReplyEntry>)
    requires
        listed@.len() == entries@.len(),
        entries@.len() + SYNTHETIC_ENTRIES <= i64::MAX,
    ensures
        reply_views(all@) == numbered(
            synthetic_items(ino, parent) + listed_items(entry_views(entries@), listed@),
        ),
{
    proof {
        reveal_strlit(".");
        reveal_strlit("..");
    }
    let ghost synthetic = synthetic_items(ino, parent);
    let ghost rest = listed_items(entry_views(entries@), listed@);
    let n: usize = entries.len();
    let mut all: Vec<ReplyEntry> = Vec::new();
    all.push(ReplyEntry { ino, offset: 1, kind: FileType::Directory, name: String::from_str(".") });
    all.push(
        ReplyEntry {
            ino: parent,
            offset: 2,
            kind: FileType::Directory,
            name: String::from_str(".."),
        },
    );
    assert("."@ =~= seq!['.']);
    assert(".."@ =~= seq!['.', '.']);
    assert(reply_views(all@) =~= numbered(synthetic + rest.take(0)));
    let mut i: usize = 0;
    while i < n
        invariant
            n == entries@.len(),
            n == listed@.len(),
            n + SYNTHETIC_ENTRIES <= i64::MAX,
            i <= n,
            synthetic.len() == 2,
            rest == listed_items(entry_views(entries@), listed@),
            all@.len() == i + 2,
            reply_views(all@) =~= numbered(synthetic + rest.take(i as int)),
        decreases n - i,
    {
        let ghost prev = all@;
        all.push(
            ReplyEntry {
                ino: listed[i].0,
                offset: i as i64 + 3,
                kind: listed[i].1.kind,
                name: entries[i].name.clone(),
            },
        );
        proof {
            let grown = synthetic + rest.take(i + 1);
            assert forall|j: int| 0 <= j < i + 3 implies reply_views(all@)[j] == numbered(
                grown,
            )[j] by {
                if j < i + 2 {
                    assert(all@[j] == prev[j]);
                    assert(reply_views(prev)[j] == prev[j]@);
                    assert(grown[j] == (synthetic + rest.take(i as int))[j]);
                } else {
                    assert(grown[j] == rest[i as int]);
                }
            }
            assert(reply_views(all@) =~= numbered(grown));
        }
        i += 1;
    }
    proof {
        assert(rest.take(n as int) =~= rest);
    }
    all
}

/// Returns the entries of an enumeration from the start position of
/// `offset` on: none for a negative offset or one past the end.
pub fn entries_from(all: Vec<ReplyEntry>, offset: i64) -> (reply: Vec<ReplyEntry>)
    ensures
        reply_views(reply@) == reply_views(all@).skip(start_of(offset, all@.len())),
{
    let mut all = all;
    let ghost whole = all@;
    let len: usize = all.len();
    let start: usize = if offset < 0 {
        len
    } else if offset as u64 > len as u64 {
        len
    } else {
        offset as usize
    };
    let reply = all.split_off(start);
    assert(reply_views(reply@) =~= reply_views(whole).skip(start as int));
    reply
}

} // verus!
