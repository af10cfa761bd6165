//! What holds of every registry and of every directory read, stated over the
//! views and proved from the invariant.

use crate::api::{kind_of, EntryView};
use crate::attr::{FileType, Timestamps};
use crate::error::FsError;
use crate::fs::{
    fetched_items, listing_fits, lookup_outcome, merge_served, numbered, readdir_served,
    reply_from, synthetic_items, Item, ReplyEntryView,
};
use crate::path::{child_path, root_path};
use crate::registry::{
    lemma_merge_step_room, lemma_merged_numbers, lemma_needed_prefix, lemma_upsert_wf,
    listing_paths, RegistryView, ROOT_INODE,
};
use vstd::prelude::*;

verus! {

/// A new registry is well formed and resolves the root path to the root
/// inode, before anything was fetched.
pub proof fn law_root_available(stamps: Timestamps)
    ensures
        RegistryView::initial(stamps).wf(),
        RegistryView::initial(stamps).inode_of(root_path()) == Some(ROOT_INODE),
        RegistryView::initial(stamps).path_of(ROOT_INODE) == Some(root_path()),
{
}

/// Every inode that has an attribute record has a path, and that path
/// resolves back to the same inode.
pub proof fn law_inode_round_trip(r: RegistryView, ino: u64)
    requires
        r.wf(),
        r.attr_of(ino).is_some(),
    ensures
        r.path_of(ino).is_some(),
        r.inode_of(r.path_of(ino).unwrap()) == Some(ino),
{
    assert(r.attrs.contains_key(ino));
    assert(r.paths.contains_key(ino));
}

/// Every path that is bound names an inode with an attribute record, and
/// that inode's path is the same path.
pub proof fn law_path_round_trip(r: RegistryView, path: Seq<char>)
    requires
        r.wf(),
        r.inode_of(path).is_some(),
    ensures
        r.attr_of(r.inode_of(path).unwrap()).is_some(),
        r.path_of(r.inode_of(path).unwrap()) == Some(path),
{
    assert(r.inodes.contains_key(path));
    assert(r.paths.contains_key(r.inodes[path]));
}

/// Two different paths never share an inode.
pub proof fn law_distinct_paths_distinct_inodes(r: RegistryView, p: Seq<char>, q: Seq<char>)
    requires
        r.wf(),
        r.inode_of(p).is_some(),
        r.inode_of(q).is_some(),
        p != q,
    ensures
        r.inode_of(p) != r.inode_of(q),
{
    law_path_round_trip(r, p);
    law_path_round_trip(r, q);
}

/// Every registry is a later state of itself.
pub proof fn law_extends_reflexive(r: RegistryView)
    ensures
        r.extends(r),
{
}

/// A later state of a later state is a later state.
pub proof fn law_extends_transitive(a: RegistryView, b: RegistryView, c: RegistryView)
    requires
        b.extends(a),
        c.extends(b),
    ensures
        c.extends(a),
{
    assert forall|p: Seq<char>| #[trigger] a.inodes.contains_key(p) implies c.inodes.contains_key(
        p,
    ) && c.inodes[p] == a.inodes[p] by {
        assert(b.inodes.contains_key(p));
    }
    assert forall|k: u64| #[trigger] a.paths.contains_key(k) implies c.paths.contains_key(k)
        && c.paths[k] == a.paths[k] by {
        assert(b.paths.contains_key(k));
    }
    assert forall|k: u64| #[trigger] a.attrs.contains_key(k) implies c.attrs.contains_key(k)
        && c.attrs[k] == a.attrs[k].with_size(c.attrs[k].size) by {
        assert(b.attrs.contains_key(k));
    }
}

/// In every later state a path resolves to the inode it resolved to before,
/// and an inode keeps its path and its kind.
pub proof fn law_resolution_stable(earlier: RegistryView, later: RegistryView, path: Seq<char>)
    requires
        later.extends(earlier),
        earlier.wf(),
        earlier.inode_of(path).is_some(),
    ensures
        later.inode_of(path) == earlier.inode_of(path),
        later.path_of(earlier.inodes[path]) == Some(path),
        later.attr_of(earlier.inodes[path]).is_some(),
        later.attrs[earlier.inodes[path]].kind == earlier.attrs[earlier.inodes[path]].kind,
        later.attrs[earlier.inodes[path]].ino == earlier.inodes[path],
{
    let ino = earlier.inodes[path];
    assert(earlier.inodes.contains_key(path));
    assert(earlier.paths.contains_key(ino));
    assert(earlier.attrs.contains_key(ino));
}

/// An upsert leads to a later state: no binding is lost or changed, and no
/// record changes but in its size.
pub proof fn law_upsert_extends(
    r: RegistryView,
    path: Seq<char>,
    kind: FileType,
    size: u64,
    stamps: Timestamps,
)
    requires
        r.wf(),
        r.has_room(path),
    ensures
        r.upsert(path, kind, size, stamps).wf(),
        r.upsert(path, kind, size, stamps).extends(r),
        r.upsert(path, kind, size, stamps).inode_of(path) == Some(r.upsert_inode(path)),
        r.upsert(path, kind, size, stamps).attrs[r.upsert_inode(path)].size == size,
{
    lemma_upsert_wf(r, path, kind, size, stamps);
    let after = r.upsert(path, kind, size, stamps);
    if r.inodes.contains_key(path) {
        let ino = r.inodes[path];
        assert(r.paths.contains_key(ino));
        assert(r.attrs.contains_key(ino));
    } else {
        assert(!r.paths.contains_key(r.next_inode));
        assert(!r.attrs.contains_key(r.next_inode));
    }
}

/// A path that is not bound yet gets a number that was never issued, above
/// the root's.
pub proof fn law_new_inode_is_fresh(r: RegistryView, path: Seq<char>)
    requires
        r.wf(),
        r.inode_of(path).is_none(),
    ensures
        r.upsert_inode(path) == r.next_inode,
        r.upsert_inode(path) > ROOT_INODE,
        r.attr_of(r.upsert_inode(path)).is_none(),
        r.path_of(r.upsert_inode(path)).is_none(),
{
    assert(r.inodes.contains_key(root_path()));
    assert(r.paths.contains_key(ROOT_INODE));
    assert(!r.paths.contains_key(r.next_inode));
    assert(!r.attrs.contains_key(r.next_inode));
}

/// Upserting the same path twice with the same size returns the same inode
/// both times, and the second upsert changes nothing, whatever kind and times
/// it is given.
pub proof fn law_upsert_idempotent(
    r: RegistryView,
    path: Seq<char>,
    kind: FileType,
    size: u64,
    first: Timestamps,
    kind_again: FileType,
    second: Timestamps,
)
    requires
        r.wf(),
        r.has_room(path),
    ensures
        r.upsert(path, kind, size, first).upsert_inode(path) == r.upsert_inode(path),
        r.upsert(path, kind, size, first).upsert(path, kind_again, size, second) == r.upsert(
            path,
            kind,
            size,
            first,
        ),
{
    let once = r.upsert(path, kind, size, first);
    let twice = once.upsert(path, kind_again, size, second);
    law_upsert_extends(r, path, kind, size, first);
    let ino = r.upsert_inode(path);
    assert(once.inodes.contains_key(path));
    assert(once.attrs[ino].with_size(size) == once.attrs[ino]);
    assert(twice.attrs =~= once.attrs);
    assert(twice =~= once);
}

/// A second upsert of a path with another size changes the size of its
/// record and nothing else.
pub proof fn law_upsert_again_refreshes_size(
    r: RegistryView,
    path: Seq<char>,
    kind: FileType,
    size: u64,
    stamps: Timestamps,
)
    requires
        r.wf(),
        r.inode_of(path).is_some(),
    ensures
        r.upsert(path, kind, size, stamps) == r.refreshed(r.inodes[path], size),
        r.upsert(path, kind, size, stamps).inodes == r.inodes,
        r.upsert(path, kind, size, stamps).paths == r.paths,
        r.upsert(path, kind, size, stamps).next_inode == r.next_inode,
        r.upsert(path, kind, size, stamps).attrs == r.attrs.insert(
            r.inodes[path],
            r.attrs[r.inodes[path]].with_size(size),
        ),
{
}

/// Merging a listing for which there is room leads to a well-formed later
/// state that issued exactly one number for each distinct path of the listing
/// that was not bound, and binds every path of the listing.
pub proof fn law_merge_extends(
    r: RegistryView,
    dir: Seq<char>,
    entries: Seq<EntryView>,
    stamps: Seq<Timestamps>,
)
    requires
        r.wf(),
        r.has_room_for(dir, entries),
    ensures
        r.merged(dir, entries, stamps).wf(),
        r.merged(dir, entries, stamps).extends(r),
        r.merged(dir, entries, stamps).next_inode == r.next_inode + r.numbers_needed(dir, entries),
        r.merged(dir, entries, stamps).next_inode <= r.next_inode + entries.len(),
        forall|p: Seq<char>| #[trigger]
            r.merged(dir, entries, stamps).inodes.contains_key(p) <==> r.inodes.contains_key(p)
                || listing_paths(dir, entries).contains(p),
    decreases entries.len(),
{
    lemma_merged_numbers(r, dir, entries, stamps);
    lemma_needed_prefix(r, dir, entries, 0);
    if entries.len() > 0 {
        let e = entries.last();
        let before = r.merged(dir, entries.drop_last(), stamps.drop_last());
        lemma_merge_step_room(r, dir, entries, stamps.drop_last());
        law_merge_extends(r, dir, entries.drop_last(), stamps.drop_last());
        let path = child_path(dir, e.name);
        law_upsert_extends(before, path, kind_of(e.type_), e.size, stamps.last());
        law_extends_transitive(r, before, r.merged(dir, entries, stamps));
    }
}

/// After a listing of a directory has been merged, the path of each of its
/// entries resolves, and it resolves to the inode that the entry's upsert
/// returned.
pub proof fn law_listed_paths_resolve(
    r: RegistryView,
    dir: Seq<char>,
    entries: Seq<EntryView>,
    stamps: Seq<Timestamps>,
    i: int,
)
    requires
        r.wf(),
        r.has_room_for(dir, entries),
        stamps.len() == entries.len(),
        0 <= i < entries.len(),
    ensures
        r.merged(dir, entries, stamps).inode_of(child_path(dir, entries[i].name)) == Some(
            r.listed(dir, entries, stamps, i).0,
        ),
    decreases entries.len(),
{
    let e = entries.last();
    let rest = entries.drop_last();
    let earlier = stamps.drop_last();
    let before = r.merged(dir, rest, earlier);
    lemma_merge_step_room(r, dir, entries, earlier);
    law_merge_extends(r, dir, rest, earlier);
    law_upsert_extends(before, child_path(dir, e.name), kind_of(e.type_), e.size, stamps.last());
    if i == entries.len() - 1 {
        assert(entries.take(i) =~= rest);
        assert(stamps.take(i) =~= earlier);
    } else {
        law_listed_paths_resolve(r, dir, rest, earlier, i);
        assert(rest.take(i) =~= entries.take(i));
        assert(earlier.take(i) =~= stamps.take(i));
        assert(before.inodes.contains_key(child_path(dir, entries[i].name)));
    }
}

/// A directory read that fails leaves the registry as it was, whatever the
/// failure.
pub proof fn law_failed_read_changes_nothing(
    before: RegistryView,
    after: RegistryView,
    ino: u64,
    offset: i64,
    fetched: Result<Seq<EntryView>, FsError>,
    error: FsError,
)
    requires
        readdir_served(before, after, ino, offset, fetched, Err(error)),
    ensures
        after == before,
{
}

/// After a directory read that succeeded with a listing, the registry is
/// well formed, is a later state of the one before, and resolves the path of
/// every entry of the listing; a lookup of the entry's name in the directory
/// then finds the record of that inode.
pub proof fn law_read_binds_entries(
    before: RegistryView,
    after: RegistryView,
    ino: u64,
    offset: i64,
    entries: Seq<EntryView>,
    reply: Seq<ReplyEntryView>,
    i: int,
)
    requires
        before.wf(),
        readdir_served(before, after, ino, offset, Ok(entries), Ok(reply)),
        0 <= i < entries.len(),
    ensures
        after.wf(),
        after.extends(before),
        before.path_of(ino).is_some(),
        after.inode_of(child_path(before.path_of(ino).unwrap(), entries[i].name)).is_some(),
        lookup_outcome(after, ino, Some(entries[i].name)).is_ok(),
        lookup_outcome(after, ino, Some(entries[i].name)).unwrap().ino == after.inodes[child_path(
            before.path_of(ino).unwrap(),
            entries[i].name,
        )],
{
    let dir = before.path_of(ino).unwrap();
    assert(merge_served(before, after, ino, dir, offset, entries, Ok(reply)));
    let stamps = choose|stamps: Seq<Timestamps>|
        stamps.len() == entries.len() && after == #[trigger] before.merged(dir, entries, stamps);
    law_merge_extends(before, dir, entries, stamps);
    law_listed_paths_resolve(before, dir, entries, stamps, i);
    let path = child_path(dir, entries[i].name);
    assert(before.paths.contains_key(ino));
    assert(after.paths.contains_key(ino));
    assert(after.inodes.contains_key(path));
    assert(after.paths.contains_key(after.inodes[path]));
    assert(after.attrs.contains_key(after.inodes[path]));
}

/// A read resumes where an earlier one stopped: for any enumeration and any
/// `k` within it, the reply from offset 0 cut after `k` entries, followed by
/// the reply from offset `k`, is the reply from offset 0. The offset that the
/// last entry before the cut carries is `k`, so that is where the kernel asks
/// to go on.
pub proof fn law_read_resumes(all: Seq<Item>, k: int)
    requires
        0 <= k <= all.len(),
        all.len() <= i64::MAX,
    ensures
        reply_from(all, 0).take(k) + reply_from(all, k as i64) == reply_from(all, 0),
        k > 0 ==> reply_from(all, 0)[k - 1].offset == k,
        reply_from(all, k as i64).len() == all.len() - k,
{
    assert(reply_from(all, 0).take(k) + reply_from(all, k as i64) =~= reply_from(all, 0));
}

/// Whether the state at position `j + 1` of a session is a later state of
/// the one at position `j`.
pub open spec fn session_step(states: Seq<RegistryView>, j: int) -> bool {
    states[j + 1].extends(states[j])
}

/// Over a whole session, however many requests it serves, a path that was
/// bound in its first state resolves to the same inode in every state, and
/// that inode keeps its kind. A session is a run of states in which each one
/// is a later state of the one before it, as every request leaves it.
pub proof fn law_resolution_stable_over_session(
    states: Seq<RegistryView>,
    path: Seq<char>,
    i: int,
)
    requires
        0 <= i < states.len(),
        states[0].wf(),
        states[0].inode_of(path).is_some(),
        forall|j: int| 0 <= j < states.len() - 1 ==> #[trigger] session_step(states, j),
    ensures
        states[i].extends(states[0]),
        states[i].inode_of(path) == states[0].inode_of(path),
        states[i].attr_of(states[0].inodes[path]).is_some(),
        states[i].attrs[states[0].inodes[path]].ino == states[0].inodes[path],
        states[i].attrs[states[0].inodes[path]].kind == states[0].attrs[states[0].inodes[path]].kind,
    decreases i,
{
    if i == 0 {
        law_extends_reflexive(states[0]);
    } else {
        law_resolution_stable_over_session(states, path, i - 1);
        assert(session_step(states, i - 1));
        law_extends_transitive(states[0], states[i - 1], states[i]);
    }
    law_resolution_stable(states[0], states[i], path);
}

/// A listing whose paths are all bound takes no number.
pub proof fn lemma_needed_zero(r: RegistryView, dir: Seq<char>, entries: Seq<EntryView>)
    requires
        forall|i: int|
            0 <= i < entries.len() ==> r.inodes.contains_key(
                #[trigger] child_path(dir, entries[i].name),
            ),
    ensures
        r.numbers_needed(dir, entries) == 0,
    decreases entries.len(),
{
    if entries.len() > 0 {
        let rest = entries.drop_last();
        assert forall|i: int| 0 <= i < rest.len() implies r.inodes.contains_key(
            #[trigger] child_path(dir, rest[i].name),
        ) by {
            assert(rest[i] == entries[i]);
        }
        lemma_needed_zero(r, dir, rest);
        assert(r.inodes.contains_key(child_path(dir, entries[entries.len() - 1].name)));
    }
}

/// The state after a whole listing is merged is a later state of the state
/// after any part of it from its start is merged.
pub proof fn lemma_merged_extends_prefix(
    r: RegistryView,
    dir: Seq<char>,
    entries: Seq<EntryView>,
    stamps: Seq<Timestamps>,
    i: int,
)
    requires
        r.wf(),
        r.has_room_for(dir, entries),
        stamps.len() == entries.len(),
        0 <= i <= entries.len(),
    ensures
        r.has_room_for(dir, entries.take(i)),
        r.merged(dir, entries.take(i), stamps.take(i)).wf(),
        r.merged(dir, entries, stamps).extends(r.merged(dir, entries.take(i), stamps.take(i))),
    decreases entries.len(),
{
    lemma_needed_prefix(r, dir, entries, i);
    law_merge_extends(r, dir, entries.take(i), stamps.take(i));
    if i == entries.len() {
        assert(entries.take(i) =~= entries);
        assert(stamps.take(i) =~= stamps);
        law_extends_reflexive(r.merged(dir, entries, stamps));
    } else {
        let rest = entries.drop_last();
        let earlier = stamps.drop_last();
        let before = r.merged(dir, rest, earlier);
        lemma_merge_step_room(r, dir, entries, earlier);
        lemma_merged_extends_prefix(r, dir, rest, earlier, i);
        assert(rest.take(i) =~= entries.take(i));
        assert(earlier.take(i) =~= stamps.take(i));
        law_upsert_extends(
            before,
            child_path(dir, entries.last().name),
            kind_of(entries.last().type_),
            entries.last().size,
            stamps.last(),
        );
        law_extends_transitive(
            r.merged(dir, entries.take(i), stamps.take(i)),
            before,
            r.merged(dir, entries, stamps),
        );
    }
}

/// After a merge, the inode that the upsert of the `i`-th entry returned is
/// the one that the entry's path is bound to, and the record of that inode
/// has the kind that the upsert returned.
pub proof fn lemma_listed_is_bound(
    r: RegistryView,
    dir: Seq<char>,
    entries: Seq<EntryView>,
    stamps: Seq<Timestamps>,
    i: int,
)
    requires
        r.wf(),
        r.has_room_for(dir, entries),
        stamps.len() == entries.len(),
        0 <= i < entries.len(),
    ensures
        r.merged(dir, entries, stamps).inode_of(child_path(dir, entries[i].name)) == Some(
            r.listed(dir, entries, stamps, i).0,
        ),
        r.merged(dir, entries, stamps).attr_of(r.listed(dir, entries, stamps, i).0).is_some(),
        r.merged(dir, entries, stamps).attrs[r.listed(dir, entries, stamps, i).0].kind == r.listed(
            dir,
            entries,
            stamps,
            i,
        ).1.kind,
        r.merged(dir, entries, stamps).attrs[r.listed(dir, entries, stamps, i).0].ino == r.listed(
            dir,
            entries,
            stamps,
            i,
        ).0,
{
    let m = r.merged(dir, entries, stamps);
    let e = entries[i];
    let path = child_path(dir, e.name);
    law_merge_extends(r, dir, entries, stamps);
    law_listed_paths_resolve(r, dir, entries, stamps, i);
    let ino = m.inodes[path];
    assert(m.inodes.contains_key(path));
    assert(m.paths.contains_key(ino));
    assert(m.attrs.contains_key(ino));
    let r_i = r.merged(dir, entries.take(i), stamps.take(i));
    let r_next = r.merged(dir, entries.take(i + 1), stamps.take(i + 1));
    lemma_merged_extends_prefix(r, dir, entries, stamps, i);
    lemma_merged_extends_prefix(r, dir, entries, stamps, i + 1);
    assert(entries.take(i + 1).drop_last() =~= entries.take(i));
    assert(stamps.take(i + 1).drop_last() =~= stamps.take(i));
    assert(entries.take(i + 1).last() == e);
    assert(stamps.take(i + 1).last() == stamps[i]);
    assert(r_next == r_i.upsert(path, kind_of(e.type_), e.size, stamps[i]));
    lemma_merge_step_room(r, dir, entries.take(i + 1), stamps.take(i));
    law_upsert_extends(r_i, path, kind_of(e.type_), e.size, stamps[i]);
    assert(r_next.inodes.contains_key(path));
    assert(r_next.paths.contains_key(r_next.inodes[path]));
    assert(r_next.attrs.contains_key(ino));
}

/// Merging a listing a second time takes no number, and gives every entry
/// the inode and the kind that it got the first time, whatever the times.
pub proof fn law_reread_same_items(
    r: RegistryView,
    dir: Seq<char>,
    entries: Seq<EntryView>,
    first: Seq<Timestamps>,
    second: Seq<Timestamps>,
)
    requires
        r.wf(),
        r.has_room_for(dir, entries),
        first.len() == entries.len(),
        second.len() == entries.len(),
    ensures
        r.merged(dir, entries, first).numbers_needed(dir, entries) == 0,
        r.merged(dir, entries, first).has_room_for(dir, entries),
        fetched_items(r.merged(dir, entries, first), dir, entries, second) == fetched_items(
            r,
            dir,
            entries,
            first,
        ),
{
    let m = r.merged(dir, entries, first);
    law_merge_extends(r, dir, entries, first);
    assert forall|i: int| 0 <= i < entries.len() implies m.inodes.contains_key(
        #[trigger] child_path(dir, entries[i].name),
    ) by {
        assert(listing_paths(dir, entries)[i] == child_path(dir, entries[i].name));
    }
    lemma_needed_zero(m, dir, entries);
    let again = fetched_items(m, dir, entries, second);
    let once = fetched_items(r, dir, entries, first);
    assert forall|i: int| 0 <= i < entries.len() implies again[i] == once[i] by {
        let e = entries[i];
        let path = child_path(dir, e.name);
        let ino = m.inodes[path];
        assert(m.inodes.contains_key(path));
        assert(m.paths.contains_key(ino));
        assert(m.attrs.contains_key(ino));
        lemma_listed_is_bound(r, dir, entries, first, i);
        let m_i = m.merged(dir, entries.take(i), second.take(i));
        lemma_needed_prefix(m, dir, entries, i);
        law_merge_extends(m, dir, entries.take(i), second.take(i));
        assert(m_i.inodes.contains_key(path));
        assert(again[i].ino == ino);
        assert(again[i].kind == m.attrs[ino].kind);
    }
    assert(again =~= once);
}

/// A read that continues an earlier read of the same listing goes on where
/// the earlier one stopped: the first reply cut after `k` entries, followed
/// by the reply of a second read from offset `k`, is the first reply. No
/// entry is lost or repeated. Where the cut is within the two synthetic
/// entries this asks that the parent of the directory is the same at both
/// reads.
pub proof fn law_second_read_resumes_first(
    before: RegistryView,
    between: RegistryView,
    after: RegistryView,
    ino: u64,
    entries: Seq<EntryView>,
    first: Seq<ReplyEntryView>,
    second: Seq<ReplyEntryView>,
    k: int,
)
    requires
        before.wf(),
        readdir_served(before, between, ino, 0, Ok(entries), Ok(first)),
        0 <= k <= first.len(),
        readdir_served(between, after, ino, k as i64, Ok(entries), Ok(second)),
    ensures
        first.len() == entries.len() + 2,
        after.next_inode == between.next_inode,
        k >= 2 || between.parent_inode(before.paths[ino]) == before.parent_inode(before.paths[ino])
            ==> first.take(k) + second == first,
{
    let dir = before.path_of(ino).unwrap();
    assert(before.paths.contains_key(ino));
    assert(listing_fits(before, dir, entries));
    assert(merge_served(before, between, ino, dir, 0, entries, Ok(first)));
    let s1 = choose|s: Seq<Timestamps>|
        s.len() == entries.len() && between == #[trigger] before.merged(dir, entries, s) && Ok::<
            Seq<ReplyEntryView>,
            FsError,
        >(first) == Ok::<Seq<ReplyEntryView>, FsError>(
            reply_from(
                synthetic_items(ino, before.parent_inode(dir)) + fetched_items(
                    before,
                    dir,
                    entries,
                    s,
                ),
                0,
            ),
        );
    law_merge_extends(before, dir, entries, s1);
    assert(between.paths.contains_key(ino));
    assert(between.path_of(ino) == Some(dir));
    law_reread_same_items(before, dir, entries, s1, s1);
    assert(listing_fits(between, dir, entries));
    assert(merge_served(between, after, ino, dir, k as i64, entries, Ok(second)));
    let s2 = choose|s: Seq<Timestamps>|
        s.len() == entries.len() && after == #[trigger] between.merged(dir, entries, s) && Ok::<
            Seq<ReplyEntryView>,
            FsError,
        >(second) == Ok::<Seq<ReplyEntryView>, FsError>(
            reply_from(
                synthetic_items(ino, between.parent_inode(dir)) + fetched_items(
                    between,
                    dir,
                    entries,
                    s,
                ),
                k as i64,
            ),
        );
    law_reread_same_items(before, dir, entries, s1, s2);
    law_merge_extends(between, dir, entries, s2);
    let items = fetched_items(before, dir, entries, s1);
    let all1 = synthetic_items(ino, before.parent_inode(dir)) + items;
    let all2 = synthetic_items(ino, between.parent_inode(dir)) + items;
    assert(first == numbered(all1).skip(0));
    assert(second == numbered(all2).skip(k));
    if k >= 2 || between.parent_inode(dir) == before.parent_inode(dir) {
        assert forall|j: int| k <= j < all1.len() implies numbered(all2)[j] == numbered(all1)[j] by {
            if j >= 2 {
                assert(all2[j] == items[j - 2]);
                assert(all1[j] == items[j - 2]);
            }
        }
        assert(first.take(k) + second =~= first);
    }
}

/// After a directory read from offset 0 that succeeded, the entry that the
/// reply holds for the `i`-th entry of the listing carries the entry's name
/// and the inode that the entry's path is bound to; the record of that inode
/// has the kind that the reply carries, and a lookup of the name in the
/// directory finds that record.
pub proof fn law_reply_carries_bound_inode(
    before: RegistryView,
    after: RegistryView,
    ino: u64,
    entries: Seq<EntryView>,
    reply: Seq<ReplyEntryView>,
    i: int,
)
    requires
        before.wf(),
        readdir_served(before, after, ino, 0, Ok(entries), Ok(reply)),
        0 <= i < entries.len(),
    ensures
        reply.len() == entries.len() + 2,
        reply[i + 2].name == entries[i].name,
        reply[i + 2].offset == i + 3,
        after.inode_of(child_path(before.paths[ino], entries[i].name)) == Some(reply[i + 2].ino),
        after.attr_of(reply[i + 2].ino).is_some(),
        after.attrs[reply[i + 2].ino].ino == reply[i + 2].ino,
        after.attrs[reply[i + 2].ino].kind == reply[i + 2].kind,
        lookup_outcome(after, ino, Some(entries[i].name)) == Ok::<crate::attr::FileAttr, FsError>(
            after.attrs[reply[i + 2].ino],
        ),
{
    let dir = before.path_of(ino).unwrap();
    assert(before.paths.contains_key(ino));
    assert(listing_fits(before, dir, entries));
    assert(merge_served(before, after, ino, dir, 0, entries, Ok(reply)));
    let s = choose|s: Seq<Timestamps>|
        s.len() == entries.len() && after == #[trigger] before.merged(dir, entries, s) && Ok::<
            Seq<ReplyEntryView>,
            FsError,
        >(reply) == Ok::<Seq<ReplyEntryView>, FsError>(
            reply_from(
                synthetic_items(ino, before.parent_inode(dir)) + fetched_items(
                    before,
                    dir,
                    entries,
                    s,
                ),
                0,
            ),
        );
    let items = fetched_items(before, dir, entries, s);
    let all = synthetic_items(ino, before.parent_inode(dir)) + items;
    assert(reply == numbered(all).skip(0));
    assert(all[i + 2] == items[i]);
    lemma_listed_is_bound(before, dir, entries, s, i);
    law_merge_extends(before, dir, entries, s);
    assert(after.paths.contains_key(ino));
}

} // verus!
