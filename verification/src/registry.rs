//! The inode registry: which inode number stands for which remote path, and
//! the attribute record of each.
//!
//! Bindings are only ever added. An inode number, once bound to a path, keeps
//! that path until the registry is dropped, and no number is given out twice.

use crate::api::{entry_views, kind_of, DirectoryEntry, EntryView};
use crate::attr::{
    create_file_attr, default_perm, fresh_attr, perm_for, FileAttr, FileType, Timestamps,
    DIRECTORY_PERM,
};
use crate::error::FsError;
use crate::path::{child_path, join_child, parent_of, path_parent, root_path};
use std::collections::HashMap;
use vstd::hash_map::StringHashMap;
use vstd::prelude::*;
use vstd::string::*;

verus! {

broadcast use vstd::std_specs::hash::group_hash_axioms;

/// The inode number of the root directory.
pub const ROOT_INODE: u64 = 1;

/// The path keys of the entries of a listing of the directory `dir`, in
/// order.
pub open spec fn listing_paths(dir: Seq<char>, entries: Seq<EntryView>) -> Seq<Seq<char>> {
    Seq::new(entries.len(), |i: int| child_path(dir, entries[i].name))
}

/// The registry as a mathematical value.
#[verifier::ext_equal]
pub struct RegistryView {
    /// The attribute record of each inode.
    pub attrs: Map<u64, FileAttr>,
    /// The path key of each inode.
    pub paths: Map<u64, Seq<char>>,
    /// The inode of each path key.
    pub inodes: Map<Seq<char>, u64>,
    /// The number that the next new path gets.
    pub next_inode: u64,
}

impl RegistryView {
    /// The inode bound to `path`, if the path has been observed.
    pub open spec fn inode_of(self, path: Seq<char>) -> Option<u64> {
        if self.inodes.contains_key(path) {
            Some(self.inodes[path])
        } else {
            None
        }
    }

    /// The path bound to `ino`, if the inode was ever issued.
    pub open spec fn path_of(self, ino: u64) -> Option<Seq<char>> {
        if self.paths.contains_key(ino) {
            Some(self.paths[ino])
        } else {
            None
        }
    }

    /// The attribute record of `ino`, if the inode was ever issued.
    pub open spec fn attr_of(self, ino: u64) -> Option<FileAttr> {
        if self.attrs.contains_key(ino) {
            Some(self.attrs[ino])
        } else {
            None
        }
    }

    /// The invariant of the registry.
    ///
    /// Paths and inodes are in bijection, every inode has exactly one
    /// attribute record, which carries the inode's own number, the root path
    /// is bound to the root inode, and every issued number lies between the
    /// root's and the next one to be issued.
    pub open spec fn wf(self) -> bool {
        &&& forall|k: u64| #[trigger] self.attrs.contains_key(k) <==> self.paths.contains_key(k)
        &&& forall|k: u64| #[trigger]
            self.paths.contains_key(k) ==> ROOT_INODE <= k < self.next_inode
        &&& forall|k: u64| #[trigger]
            self.paths.contains_key(k) ==> self.inodes.contains_key(self.paths[k])
                && self.inodes[self.paths[k]] == k
        &&& forall|p: Seq<char>| #[trigger]
            self.inodes.contains_key(p) ==> self.paths.contains_key(self.inodes[p])
                && self.paths[self.inodes[p]] == p
        &&& forall|k: u64| #[trigger]
            self.attrs.contains_key(k) ==> self.attrs[k].ino == k && self.attrs[k].well_formed()
        &&& self.inodes.contains_key(root_path())
        &&& self.inodes[root_path()] == ROOT_INODE
    }

    /// The registry right after construction: the root alone, bound to the
    /// root inode, as a directory of size 0 made at the times `stamps`.
    pub open spec fn initial(stamps: Timestamps) -> RegistryView {
        RegistryView {
            attrs: Map::empty().insert(
                ROOT_INODE,
                fresh_attr(ROOT_INODE, FileType::Directory, 0, DIRECTORY_PERM, stamps),
            ),
            paths: Map::empty().insert(ROOT_INODE, root_path()),
            inodes: Map::empty().insert(root_path(), ROOT_INODE),
            next_inode: (ROOT_INODE + 1) as u64,
        }
    }

    /// The registry after the size of `ino` has been refreshed to `size`.
    pub open spec fn refreshed(self, ino: u64, size: u64) -> RegistryView {
        RegistryView { attrs: self.attrs.insert(ino, self.attrs[ino].with_size(size)), ..self }
    }

    /// The registry after `path` has been bound to the next inode, with
    /// `attr` as its record.
    pub open spec fn bound(self, path: Seq<char>, attr: FileAttr) -> RegistryView {
        RegistryView {
            attrs: self.attrs.insert(self.next_inode, attr),
            paths: self.paths.insert(self.next_inode, path),
            inodes: self.inodes.insert(path, self.next_inode),
            next_inode: (self.next_inode + 1) as u64,
        }
    }

    /// Whether `path` can be upserted: it is bound already, or a number is
    /// left for it.
    pub open spec fn has_room(self, path: Seq<char>) -> bool {
        self.inodes.contains_key(path) || self.next_inode < u64::MAX
    }

    /// The inode that an upsert of `path` returns: the one the path is bound
    /// to, or else the next one.
    pub open spec fn upsert_inode(self, path: Seq<char>) -> u64 {
        if self.inodes.contains_key(path) {
            self.inodes[path]
        } else {
            self.next_inode
        }
    }

    /// The registry after an upsert of `path`. A path that is bound keeps its
    /// inode and its record, but for the size, which is refreshed; `kind` and
    /// `stamps` are then not looked at. A path that is not bound gets the next
    /// inode and a record of the given kind and size with the permissions of
    /// that kind, made at the times `stamps`.
    pub open spec fn upsert(
        self,
        path: Seq<char>,
        kind: FileType,
        size: u64,
        stamps: Timestamps,
    ) -> RegistryView {
        if self.inodes.contains_key(path) {
            self.refreshed(self.inodes[path], size)
        } else {
            self.bound(path, fresh_attr(self.next_inode, kind, size, default_perm(kind), stamps))
        }
    }

    /// The registry after the entries of a listing of the directory `dir`
    /// have been upserted one after the other, the `i`-th at the times
    /// `stamps[i]`.
    pub open spec fn merged(
        self,
        dir: Seq<char>,
        entries: Seq<EntryView>,
        stamps: Seq<Timestamps>,
    ) -> RegistryView
        decreases entries.len(),
    {
        if entries.len() == 0 {
            self
        } else {
            let e = entries.last();
            self.merged(dir, entries.drop_last(), stamps.drop_last()).upsert(
                child_path(dir, e.name),
                kind_of(e.type_),
                e.size,
                stamps.last(),
            )
        }
    }

    /// The inode and the record that the upsert of the `i`-th entry of a
    /// listing returns.
    pub open spec fn listed(
        self,
        dir: Seq<char>,
        entries: Seq<EntryView>,
        stamps: Seq<Timestamps>,
        i: int,
    ) -> (u64, FileAttr) {
        let before = self.merged(dir, entries.take(i), stamps.take(i));
        let path = child_path(dir, entries[i].name);
        let ino = before.upsert_inode(path);
        (ino, before.upsert(path, kind_of(entries[i].type_), entries[i].size, stamps[i]).attrs[ino])
    }

    /// The count of numbers that a merge of a listing of the directory `dir`
    /// takes: one for each distinct path of the listing that is not bound.
    pub open spec fn numbers_needed(self, dir: Seq<char>, entries: Seq<EntryView>) -> nat
        decreases entries.len(),
    {
        if entries.len() == 0 {
            0
        } else {
            let rest = entries.drop_last();
            let path = child_path(dir, entries.last().name);
            self.numbers_needed(dir, rest) + if self.inodes.contains_key(path) || listing_paths(
                dir,
                rest,
            ).contains(path) {
                0nat
            } else {
                1nat
            }
        }
    }

    /// Whether a listing of the directory `dir` can be merged: a number is
    /// left for each distinct path of it that is not bound.
    pub open spec fn has_room_for(self, dir: Seq<char>, entries: Seq<EntryView>) -> bool {
        self.next_inode + self.numbers_needed(dir, entries) <= u64::MAX
    }

    /// The inode bound to the given parent path, or to the root path where
    /// there is none; the root inode where that path is not bound.
    pub open spec fn inode_or_root(self, parent: Option<Seq<char>>) -> u64 {
        let path = match parent {
            Some(p) => p,
            None => root_path(),
        };
        match self.inode_of(path) {
            Some(ino) => ino,
            None => ROOT_INODE,
        }
    }

    /// The inode that the `..` entry of the directory at `dir` names. The
    /// root's parent is the root itself.
    pub open spec fn parent_inode(self, dir: Seq<char>) -> u64 {
        if dir == root_path() {
            ROOT_INODE
        } else {
            self.inode_or_root(parent_of(dir))
        }
    }

    /// Whether this registry is a later state of `earlier`: every binding of
    /// `earlier` is still there unchanged, and every record of `earlier` is
    /// still there with at most its size changed.
    pub open spec fn extends(self, earlier: RegistryView) -> bool {
        &&& earlier.next_inode <= self.next_inode
        &&& forall|p: Seq<char>| #[trigger]
            earlier.inodes.contains_key(p) ==> self.inodes.contains_key(p) && self.inodes[p]
                == earlier.inodes[p]
        &&& forall|k: u64| #[trigger]
            earlier.paths.contains_key(k) ==> self.paths.contains_key(k) && self.paths[k]
                == earlier.paths[k]
        &&& forall|k: u64| #[trigger]
            earlier.attrs.contains_key(k) ==> self.attrs.contains_key(k) && self.attrs[k]
                == earlier.attrs[k].with_size(self.attrs[k].size)
    }
}

/// The registry of inodes, paths and attribute records.
pub struct InodeRegistry {
    attrs: HashMap<u64, FileAttr>,
    paths: HashMap<u64, String>,
    inodes: StringHashMap<u64>,
    next_inode: u64,
}

impl View for InodeRegistry {
    type V = RegistryView;

    closed spec fn view(&self) -> RegistryView {
        RegistryView {
            attrs: self.attrs@,
            paths: Map::new(|k: u64| self.paths@.contains_key(k), |k: u64| self.paths@[k]@),
            inodes: self.inodes@,
            next_inode: self.next_inode,
        }
    }
}

/// The kernel interface's number for the root inode.
///
/// Reads the constant `fuser::FUSE_ROOT_ID`, which that crate defines as 1.
#[verifier::external_body]
fn fuse_root_id() -> (id: u64)
    ensures
        id == ROOT_INODE,
{
    fuser::FUSE_ROOT_ID
}

impl InodeRegistry {
    /// The invariant of the registry, stated of its view.
    pub open spec fn wf(&self) -> bool {
        self@.wf()
    }

    /// Makes a registry in which the root path is bound to the root inode
    /// and nothing else is bound.
    pub fn new() -> (registry: InodeRegistry)
        ensures
            registry.wf(),
            registry@ == RegistryView::initial(registry@.attrs[ROOT_INODE].stamps()),
            registry@.inode_of(root_path()) == Some(ROOT_INODE),
    {
        let mut registry = InodeRegistry {
            attrs: HashMap::new(),
            paths: HashMap::new(),
            inodes: StringHashMap::new(),
            next_inode: fuse_root_id(),
        };
        registry.bind_root();
        registry
    }

    /// Makes a registry that holds the root alone and gives new paths the
    /// numbers from `next` on, or from the one after the root's where `next`
    /// is not above the root's.
    pub fn with_next_inode(next: u64) -> (registry: InodeRegistry)
        ensures
            registry.wf(),
            registry@ == (RegistryView {
                next_inode: if next > ROOT_INODE {
                    next
                } else {
                    (ROOT_INODE + 1) as u64
                },
                ..RegistryView::initial(registry@.attrs[ROOT_INODE].stamps())
            }),
    {
        let mut registry = InodeRegistry::new();
        if next > registry.next_inode {
            registry.next_inode = next;
        }
        registry
    }

    /// Binds the root path to the root inode in a registry that holds
    /// nothing yet.
    fn bind_root(&mut self)
        requires
            old(self).attrs@ == Map::<u64, FileAttr>::empty(),
            old(self).paths@ == Map::<u64, String>::empty(),
            old(self).inodes@ == Map::<Seq<char>, u64>::empty(),
            old(self).next_inode == ROOT_INODE,
        ensures
            final(self).wf(),
            final(self)@ == RegistryView::initial(final(self)@.attrs[ROOT_INODE].stamps()),
    {
        proof {
            reveal_strlit("/");
        }
        let root = self.next_inode;
        let attr = create_file_attr(root, FileType::Directory, 0, DIRECTORY_PERM);
        let path = String::from_str("/");
        assert(path@ =~= root_path());
        self.attrs.insert(root, attr);
        self.paths.insert(root, path.clone());
        self.inodes.insert(path, root);
        self.next_inode = root + 1;
        assert(self@ =~= RegistryView::initial(attr.stamps()));
    }

    /// Returns the path bound to `ino`, or `UnknownInode` if the inode was
    /// never issued.
    pub fn resolve_path_of(&self, ino: u64) -> (path: Result<String, FsError>)
        ensures
            match path {
                Ok(p) => self@.path_of(ino) == Some(p@),
                Err(e) => e == FsError::UnknownInode && self@.path_of(ino).is_none(),
            },
    {
        match self.paths.get(&ino) {
            Some(p) => Ok(p.clone()),
            None => Err(FsError::UnknownInode),
        }
    }

    /// Returns the inode bound to `path`, or `None` if the path has not been
    /// observed yet.
    pub fn resolve_inode_of(&self, path: &str) -> (ino: Option<u64>)
        ensures
            ino == self@.inode_of(path@),
    {
        match self.inodes.get(path) {
            Some(ino) => Some(*ino),
            None => None,
        }
    }

    /// Returns the attribute record of `ino`, or `None` if the inode was
    /// never issued.
    pub fn get_attributes(&self, ino: u64) -> (attr: Option<FileAttr>)
        ensures
            attr == self@.attr_of(ino),
    {
        match self.attrs.get(&ino) {
            Some(attr) => Some(*attr),
            None => None,
        }
    }

    /// Returns the number that the next new path gets.
    pub fn next_inode(&self) -> (next: u64)
        ensures
            next == self@.next_inode,
    {
        self.next_inode
    }

    /// Upserts the path key `path`.
    ///
    /// A path that is bound keeps its inode; the size of its record is
    /// refreshed. A path that is not bound gets the next inode and a new
    /// record. Fails with `LimitExceeded`, changing nothing, exactly when the
    /// path is not bound and no number is left.
    pub fn upsert_path(&mut self, path: String, kind: FileType, size: u64) -> (r: Result<
        (u64, FileAttr),
        FsError,
    >)
        requires
            old(self).wf(),
        ensures
            final(self).wf(),
            match r {
                Ok((ino, attr)) => {
                    &&& old(self)@.has_room(path@)
                    &&& ino == old(self)@.upsert_inode(path@)
                    &&& final(self)@ == old(self)@.upsert(path@, kind, size, attr.stamps())
                    &&& final(self)@.attr_of(ino) == Some(attr)
                },
                Err(e) => {
                    &&& e == FsError::LimitExceeded
                    &&& !old(self)@.has_room(path@)
                    &&& final(self)@ == old(self)@
                },
            },
    {
        let bound: Option<u64> = self.resolve_inode_of(path.as_str());
        match bound {
            Some(ino) => {
                let mut attr: FileAttr = match self.attrs.get(&ino) {
                    Some(a) => *a,
                    None => {
                        proof {
                            assert(self@.paths.contains_key(ino));
                            assert(false);
                        }
                        vstd::pervasive::unreached()
                    },
                };
                attr.size = size;
                self.attrs.insert(ino, attr);
                proof {
                    assert(self@ =~= old(self)@.refreshed(ino, size));
                    lemma_upsert_wf(old(self)@, path@, kind, size, attr.stamps());
                }
                Ok((ino, attr))
            },
            None => {
                if self.next_inode == u64::MAX {
                    return Err(FsError::LimitExceeded);
                }
                let ino = self.next_inode;
                let attr = create_file_attr(ino, kind, size, perm_for(kind));
                self.attrs.insert(ino, attr);
                self.paths.insert(ino, path.clone());
                self.inodes.insert(path, ino);
                self.next_inode = ino + 1;
                proof {
                    assert(self@ =~= old(self)@.bound(path@, attr));
                    lemma_upsert_wf(old(self)@, path@, kind, size, attr.stamps());
                }
                Ok((ino, attr))
            },
        }
    }

    /// Upserts the entry `child_name` of the directory at `parent_path`: the
    /// path key is the two joined.
    ///
    /// This is the one place where the registry changes. Fails with
    /// `LimitExceeded`, changing nothing, exactly when the path is not bound
    /// and no number is left.
    pub fn upsert_child(
        &mut self,
        parent_path: &str,
        child_name: &str,
        kind: FileType,
        size: u64,
    ) -> (r: Result<(u64, FileAttr), FsError>)
        requires
            old(self).wf(),
        ensures
            final(self).wf(),
            match r {
                Ok((ino, attr)) => {
                    let path = child_path(parent_path@, child_name@);
                    &&& old(self)@.has_room(path)
                    &&& ino == old(self)@.upsert_inode(path)
                    &&& final(self)@ == old(self)@.upsert(path, kind, size, attr.stamps())
                    &&& final(self)@.attr_of(ino) == Some(attr)
                },
                Err(e) => {
                    &&& e == FsError::LimitExceeded
                    &&& !old(self)@.has_room(child_path(parent_path@, child_name@))
                    &&& final(self)@ == old(self)@
                },
            },
    {
        let path = join_child(parent_path, child_name);
        self.upsert_path(path, kind, size)
    }

    /// Counts the numbers that a merge of the listing takes.
    fn count_needed(&self, dir_path: &str, entries: &Vec<DirectoryEntry>) -> (count: usize)
        ensures
            count == self@.numbers_needed(dir_path@, entry_views(entries@)),
    {
        let ghost evs = entry_views(entries@);
        let n: usize = entries.len();
        let mut seen: StringHashMap<bool> = StringHashMap::new();
        let mut count: usize = 0;
        let mut i: usize = 0;
        proof {
            assert(evs.take(0) =~= Seq::<EntryView>::empty());
        }
        while i < n
            invariant
                n == entries@.len(),
                evs == entry_views(entries@),
                i <= n,
                count <= i,
                count == self@.numbers_needed(dir_path@, evs.take(i as int)),
                forall|p: Seq<char>| #[trigger]
                    seen@.contains_key(p) <==> listing_paths(dir_path@, evs.take(i as int)).contains(
                        p,
                    ),
            decreases n - i,
        {
            let path = join_child(dir_path, entries[i].name.as_str());
            proof {
                assert(evs[i as int] == entries@[i as int]@);
                assert(evs.take(i + 1).drop_last() =~= evs.take(i as int));
                assert(evs.take(i + 1).last() == evs[i as int]);
                lemma_paths_step(dir_path@, evs.take(i + 1));
            }
            if self.resolve_inode_of(path.as_str()).is_none() && !seen.contains_key(path.as_str()) {
                count += 1;
            }
            seen.insert(path, true);
            i += 1;
        }
        proof {
            assert(evs.take(n as int) =~= evs);
        }
        count
    }

    /// Upserts every entry of a listing of the directory at `dir_path`, in
    /// the listing's order, and returns the inode and the record of each.
    ///
    /// Fails with `LimitExceeded`, changing nothing, exactly when fewer
    /// numbers are left than the listing has distinct paths that are not
    /// bound.
    pub fn merge_listing(&mut self, dir_path: &str, entries: &Vec<DirectoryEntry>) -> (r: Result<
        Vec<(u64, FileAttr)>,
        FsError,
    >)
        requires
            old(self).wf(),
        ensures
            final(self).wf(),
            match r {
                Ok(listed) => {
                    let stamps = listed_stamps(listed@);
                    &&& old(self)@.has_room_for(dir_path@, entry_views(entries@))
                    &&& listed@.len() == entries@.len()
                    &&& final(self)@ == old(self)@.merged(
                        dir_path@,
                        entry_views(entries@),
                        stamps,
                    )
                    &&& forall|i: int|
                        0 <= i < listed@.len() ==> #[trigger] listed@[i] == old(self)@.listed(
                            dir_path@,
                            entry_views(entries@),
                            stamps,
                            i,
                        )
                },
                Err(e) => {
                    &&& e == FsError::LimitExceeded
                    &&& !old(self)@.has_room_for(dir_path@, entry_views(entries@))
                    &&& final(self)@ == old(self)@
                },
            },
    {
        let n: usize = entries.len();
        let needed: usize = self.count_needed(dir_path, entries);
        if needed as u64 > u64::MAX - self.next_inode {
            return Err(FsError::LimitExceeded);
        }
        let ghost start = self@;
        let ghost evs = entry_views(entries@);
        let mut listed: Vec<(u64, FileAttr)> = Vec::new();
        let mut i: usize = 0;
        proof {
            assert(evs.take(0) =~= Seq::<EntryView>::empty());
        }
        while i < n
            invariant
                n == entries@.len(),
                evs == entry_views(entries@),
                i <= n,
                start.wf(),
                start.has_room_for(dir_path@, evs),
                self.wf(),
                listed@.len() == i,
                self@ == start.merged(dir_path@, evs.take(i as int), listed_stamps(listed@)),
                forall|j: int|
                    0 <= j < i ==> #[trigger] listed@[j] == start.listed(
                        dir_path@,
                        evs,
                        listed_stamps(listed@),
                        j,
                    ),
            decreases n - i,
        {
            let entry = &entries[i];
            let ghost stamps_before = listed_stamps(listed@);
            let ghost listed_before = listed@;
            proof {
                let e = evs[i as int];
                assert(e == entries@[i as int]@);
                assert(evs.take(i + 1).drop_last() =~= evs.take(i as int));
                assert(evs.take(i + 1).last() == e);
                lemma_needed_prefix(start, dir_path@, evs, i as int);
                lemma_needed_prefix(start, dir_path@, evs, i + 1);
                lemma_merged_numbers(start, dir_path@, evs.take(i as int), stamps_before);
                assert(self@.has_room(child_path(dir_path@, e.name)));
            }
            let (ino, attr) = match self.upsert_child(
                dir_path,
                entry.name.as_str(),
                entry.kind(),
                entry.size,
            ) {
                Ok(pair) => pair,
                Err(_) => {
                    proof {
                        assert(false);
                    }
                    vstd::pervasive::unreached()
                },
            };
            listed.push((ino, attr));
            proof {
                let stamps = listed_stamps(listed@);
                assert(stamps.drop_last() =~= stamps_before);
                assert(stamps.last() == attr.stamps());
                assert(stamps.take(i as int) =~= stamps_before);
                assert forall|j: int| 0 <= j < i + 1 implies #[trigger] listed@[j] == start.listed(
                    dir_path@,
                    evs,
                    stamps,
                    j,
                ) by {
                    if j < i {
                        assert(listed@[j] == listed_before[j]);
                        assert(stamps.take(j) =~= stamps_before.take(j));
                        assert(stamps[j] == stamps_before[j]);
                    }
                }
            }
            i += 1;
        }
        proof {
            assert(evs.take(n as int) =~= evs);
        }
        Ok(listed)
    }

    /// Returns the inode that stands for the parent of a directory, given
    /// the parent's path: the inode bound to that path, or to the root path
    /// where there is no parent, and the root inode where that path is not
    /// bound.
    pub fn inode_or_root(&self, parent: Option<&str>) -> (ino: u64)
        ensures
            ino == self@.inode_or_root(
                match parent {
                    Some(p) => Some(p@),
                    None => None,
                },
            ),
    {
        proof {
            reveal_strlit("/");
            assert("/"@ =~= root_path());
        }
        let bound = match parent {
            Some(p) => self.resolve_inode_of(p),
            None => self.resolve_inode_of("/"),
        };
        match bound {
            Some(ino) => ino,
            None => fuse_root_id(),
        }
    }

    /// Returns the inode that the `..` entry of the directory at `dir_path`
    /// names: the root inode for the root, else the inode of the parent
    /// path, and the root inode where that path is not bound.
    pub fn parent_inode(&self, dir_path: &str) -> (ino: u64)
        ensures
            ino == self@.parent_inode(dir_path@),
    {
        proof {
            reveal_strlit("/");
            assert("/"@ =~= root_path());
        }
        let root = String::from_str("/");
        let dir = String::from_str(dir_path);
        if dir == root {
            fuse_root_id()
        } else {
            match path_parent(dir_path) {
                Some(p) => self.inode_or_root(Some(p.as_str())),
                None => self.inode_or_root(None),
            }
        }
    }
}

/// The timestamps of the records that a merge returned, in order.
pub open spec fn listed_stamps(listed: Seq<(u64, FileAttr)>) -> Seq<Timestamps> {
    listed.map_values(|l: (u64, FileAttr)| l.1.stamps())
}

/// An upsert keeps the invariant.
pub proof fn lemma_upsert_wf(
    r: RegistryView,
    path: Seq<char>,
    kind: FileType,
    size: u64,
    stamps: Timestamps,
)
    requires
        r.wf(),
        r.has_room(path),
    ensures
        r.upsert(path, kind, size, stamps).wf(),
{
    let after = r.upsert(path, kind, size, stamps);
    if r.inodes.contains_key(path) {
        let ino = r.inodes[path];
        assert(r.paths.contains_key(ino));
        assert(r.attrs.contains_key(ino));
    } else {
        assert(!r.paths.contains_key(r.next_inode));
        assert forall|k: u64| #[trigger] after.paths.contains_key(k) implies after.inodes.contains_key(
            after.paths[k],
        ) && after.inodes[after.paths[k]] == k by {
            if k != r.next_inode {
                assert(r.paths.contains_key(k));
            }
        }
        assert forall|p: Seq<char>| #[trigger] after.inodes.contains_key(p) implies after.paths.contains_key(
            after.inodes[p],
        ) && after.paths[after.inodes[p]] == p by {
            if p != path {
                assert(r.inodes.contains_key(p));
            }
        }
    }
}

/// A path is among the paths of a listing exactly when it is among those of
/// the listing without its last entry, or is the path of the last entry.
pub proof fn lemma_paths_step(dir: Seq<char>, entries: Seq<EntryView>)
    requires
        entries.len() > 0,
    ensures
        forall|p: Seq<char>| #[trigger]
            listing_paths(dir, entries).contains(p) <==> listing_paths(
                dir,
                entries.drop_last(),
            ).contains(p) || p == child_path(dir, entries.last().name),
{
    let all = listing_paths(dir, entries);
    let rest = listing_paths(dir, entries.drop_last());
    let last = child_path(dir, entries.last().name);
    assert forall|p: Seq<char>| #[trigger] all.contains(p) <==> rest.contains(p) || p == last by {
        if all.contains(p) {
            let i = choose|i: int| 0 <= i < all.len() && all[i] == p;
            if i < entries.len() - 1 {
                assert(rest[i] == p);
            }
        }
        if rest.contains(p) {
            let i = choose|i: int| 0 <= i < rest.len() && rest[i] == p;
            assert(all[i] == p);
        }
        if p == last {
            assert(all[entries.len() - 1] == p);
        }
    }
}

/// A merge takes at most one number for each entry of the listing, and a
/// part of the listing from its start takes no more than the whole.
pub proof fn lemma_needed_prefix(
    r: RegistryView,
    dir: Seq<char>,
    entries: Seq<EntryView>,
    i: int,
)
    requires
        0 <= i <= entries.len(),
    ensures
        r.numbers_needed(dir, entries.take(i)) <= r.numbers_needed(dir, entries),
        r.numbers_needed(dir, entries) <= entries.len(),
    decreases entries.len(),
{
    if entries.len() > 0 {
        let rest = entries.drop_last();
        if i == entries.len() {
            assert(entries.take(i) =~= entries);
            lemma_needed_prefix(r, dir, rest, 0);
        } else {
            lemma_needed_prefix(r, dir, rest, i);
            assert(rest.take(i) =~= entries.take(i));
        }
    } else {
        assert(entries.take(i) =~= entries);
    }
}

/// After a merge for which there is room the registry is well formed, has
/// issued exactly the numbers that the merge takes, and binds the paths that
/// were bound before and those of the listing, and no others.
pub proof fn lemma_merged_numbers(
    r: RegistryView,
    dir: Seq<char>,
    entries: Seq<EntryView>,
    stamps: Seq<Timestamps>,
)
    requires
        r.wf(),
        r.has_room_for(dir, entries),
    ensures
        r.merged(dir, entries, stamps).wf(),
        r.merged(dir, entries, stamps).next_inode == r.next_inode + r.numbers_needed(dir, entries),
        forall|p: Seq<char>| #[trigger]
            r.merged(dir, entries, stamps).inodes.contains_key(p) <==> r.inodes.contains_key(p)
                || listing_paths(dir, entries).contains(p),
    decreases entries.len(),
{
    if entries.len() > 0 {
        let e = entries.last();
        let rest = entries.drop_last();
        let before = r.merged(dir, rest, stamps.drop_last());
        let path = child_path(dir, e.name);
        lemma_merged_numbers(r, dir, rest, stamps.drop_last());
        lemma_paths_step(dir, entries);
        assert(before.inodes.contains_key(path) <==> r.inodes.contains_key(path) || listing_paths(
            dir,
            rest,
        ).contains(path));
        lemma_upsert_wf(before, path, kind_of(e.type_), e.size, stamps.last());
        let after = r.merged(dir, entries, stamps);
        assert forall|p: Seq<char>| #[trigger] after.inodes.contains_key(p) <==> r.inodes.contains_key(
            p,
        ) || listing_paths(dir, entries).contains(p) by {
            assert(after.inodes.contains_key(p) <==> before.inodes.contains_key(p) || p == path);
            assert(before.inodes.contains_key(p) <==> r.inodes.contains_key(p) || listing_paths(
                dir,
                rest,
            ).contains(p));
        }
    } else {
        assert(listing_paths(dir, entries) =~= Seq::<Seq<char>>::empty());
    }
}

/// Where there is room for a listing, there is room for the listing without
/// its last entry, and after that part is merged there is room for the
/// upsert of the last entry.
pub proof fn lemma_merge_step_room(
    r: RegistryView,
    dir: Seq<char>,
    entries: Seq<EntryView>,
    stamps: Seq<Timestamps>,
)
    requires
        r.wf(),
        r.has_room_for(dir, entries),
        entries.len() > 0,
    ensures
        r.has_room_for(dir, entries.drop_last()),
        r.merged(dir, entries.drop_last(), stamps).wf(),
        r.merged(dir, entries.drop_last(), stamps).has_room(
            child_path(dir, entries.last().name),
        ),
{
    let rest = entries.drop_last();
    let path = child_path(dir, entries.last().name);
    lemma_merged_numbers(r, dir, rest, stamps);
    let before = r.merged(dir, rest, stamps);
    assert(before.inodes.contains_key(path) <==> r.inodes.contains_key(path) || listing_paths(
        dir,
        rest,
    ).contains(path));
}

} // verus!
