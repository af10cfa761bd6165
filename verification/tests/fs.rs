use remote_fs::api::DirectoryEntry;
use remote_fs::attr::FileType;
use remote_fs::error::{FetchError, FsError};
use remote_fs::fs::{entries_from, RemoteFs, ReplyEntry};
use remote_fs::mock::{list_path, list_root};
use remote_fs::registry::{InodeRegistry, ROOT_INODE};

fn listed(name: &str, type_: &str, size: u64) -> DirectoryEntry {
    DirectoryEntry {
        name: name.to_string(),
        type_: type_.to_string(),
        size,
        modified_at: "2024-05-22T10:00:00Z".to_string(),
    }
}

fn root_listing() -> Vec<DirectoryEntry> {
    vec![listed("Documents", "directory", 0), listed("image.jpg", "file", 102400)]
}

fn reply(ino: u64, offset: i64, kind: FileType, name: &str) -> ReplyEntry {
    ReplyEntry { ino, offset, kind, name: name.to_string() }
}

#[test]
fn new_filesystem_has_root_and_address() {
    let fs = RemoteFs::new("http://localhost:3000");
    assert_eq!(fs.server_addr(), "http://localhost:3000");
    assert_eq!(fs.registry().resolve_inode_of("/"), Some(ROOT_INODE));
    let root = fs.getattr(ROOT_INODE).unwrap();
    assert_eq!(root.ino, ROOT_INODE);
    assert_eq!(root.kind, FileType::Directory);
    assert_eq!(root.perm, 0o755);
    assert_eq!(root.nlink, 2);
}

#[test]
fn init_and_destroy_change_nothing() {
    let mut fs = RemoteFs::new("http://localhost:3000");
    assert_eq!(fs.init(), Ok(()));
    fs.destroy();
    assert_eq!(fs.server_addr(), "http://localhost:3000");
    assert_eq!(fs.registry().next_inode(), ROOT_INODE + 1);
}

#[test]
fn scenario_fresh_root_enumeration() {
    let mut fs = RemoteFs::new("http://localhost:3000");
    assert_eq!(fs.readdir_plan(ROOT_INODE), Ok(String::new()));
    let entries = fs.readdir(ROOT_INODE, 0, Ok(root_listing())).unwrap();
    assert_eq!(entries.len(), 4);
    assert_eq!(entries[0], reply(ROOT_INODE, 1, FileType::Directory, "."));
    assert_eq!(entries[1], reply(ROOT_INODE, 2, FileType::Directory, ".."));
    let id1 = entries[2].ino;
    let id2 = entries[3].ino;
    assert_eq!(entries[2], reply(id1, 3, FileType::Directory, "Documents"));
    assert_eq!(entries[3], reply(id2, 4, FileType::RegularFile, "image.jpg"));
    assert_ne!(id1, id2);
    assert!(id1 > ROOT_INODE);
    assert!(id2 > ROOT_INODE);
    assert_eq!((id1, id2), (2, 3));
    assert_eq!(fs.registry().resolve_inode_of("/Documents"), Some(id1));
    assert_eq!(fs.registry().resolve_inode_of("/image.jpg"), Some(id2));
}

#[test]
fn scenario_lookup_after_enumeration() {
    let mut fs = RemoteFs::new("http://localhost:3000");
    let entries = fs.readdir(ROOT_INODE, 0, Ok(root_listing())).unwrap();
    let id2 = entries[3].ino;
    let attr = fs.lookup(ROOT_INODE, Some("image.jpg")).unwrap();
    assert_eq!(attr.size, 102400);
    assert_eq!(attr.kind, FileType::RegularFile);
    assert_eq!(attr.ino, id2);
    assert_eq!(attr.blocks, 200);
    assert_eq!(attr.perm, 0o644);
    assert_eq!(fs.getattr(id2), Ok(attr));
}

#[test]
fn scenario_lookup_of_unseen_name_is_not_found() {
    let mut fs = RemoteFs::new("http://localhost:3000");
    assert_eq!(fs.lookup(ROOT_INODE, Some("ghost.txt")), Err(FsError::PathNotFound));
    fs.readdir(ROOT_INODE, 0, Ok(root_listing())).unwrap();
    assert_eq!(fs.lookup(ROOT_INODE, Some("ghost.txt")), Err(FsError::PathNotFound));
}

#[test]
fn scenario_transport_error_fails_whole_and_changes_nothing() {
    let mut fs = RemoteFs::new("http://localhost:3000");
    fs.readdir(ROOT_INODE, 0, Ok(root_listing())).unwrap();
    let next = fs.registry().next_inode();
    let image = fs.getattr(3).unwrap();
    assert_eq!(
        fs.readdir(ROOT_INODE, 0, Err(FetchError::Transport)),
        Err(FsError::FetchTransport)
    );
    assert_eq!(fs.registry().next_inode(), next);
    assert_eq!(fs.getattr(3), Ok(image));
    assert_eq!(fs.registry().resolve_inode_of("/Documents"), Some(2));

    let mut fresh = RemoteFs::new("http://localhost:3000");
    assert_eq!(
        fresh.readdir(ROOT_INODE, 0, Err(FetchError::Transport)),
        Err(FsError::FetchTransport)
    );
    assert_eq!(fresh.registry().next_inode(), ROOT_INODE + 1);
    assert_eq!(fresh.registry().resolve_inode_of("/Documents"), None);
}

#[test]
fn scenario_two_enumerations_converge_on_one_inode() {
    let mut fs = RemoteFs::new("http://localhost:3000");
    let listing = vec![listed("folder1", "directory", 0)];
    let first = fs.readdir(ROOT_INODE, 0, Ok(listing.clone())).unwrap();
    let second = fs.readdir(ROOT_INODE, 0, Ok(listing)).unwrap();
    assert_eq!(first[2].ino, second[2].ino);
    assert_eq!(first, second);
    assert_eq!(fs.registry().resolve_inode_of("/folder1"), Some(first[2].ino));
    assert_eq!(fs.registry().next_inode(), 3);
}

#[test]
fn protocol_errors_fail_the_read() {
    let mut fs = RemoteFs::new("http://localhost:3000");
    assert_eq!(
        fs.readdir(ROOT_INODE, 0, Err(FetchError::MalformedBody)),
        Err(FsError::FetchProtocol)
    );
    assert_eq!(
        fs.readdir(
            ROOT_INODE,
            0,
            Err(FetchError::Status { code: 500, body: "boom".to_string() })
        ),
        Err(FsError::FetchProtocol)
    );
    assert_eq!(fs.registry().next_inode(), ROOT_INODE + 1);
}

#[test]
fn lookup_with_unrepresentable_name_is_malformed() {
    let fs = RemoteFs::new("http://localhost:3000");
    assert_eq!(fs.lookup(ROOT_INODE, None), Err(FsError::MalformedRequest));
    assert_eq!(fs.lookup(99, None), Err(FsError::MalformedRequest));
}

#[test]
fn lookup_under_unknown_parent_is_stale() {
    let fs = RemoteFs::new("http://localhost:3000");
    assert_eq!(fs.lookup(99, Some("image.jpg")), Err(FsError::StaleHandle));
    assert_eq!(fs.lookup(0, Some("image.jpg")), Err(FsError::StaleHandle));
}

#[test]
fn lookup_in_subdirectory() {
    let mut fs = RemoteFs::new("http://localhost:3000");
    let root = fs.readdir(ROOT_INODE, 0, Ok(list_root())).unwrap();
    let folder = root[4].ino;
    assert_eq!(root[4].name, "folder1");
    assert_eq!(fs.lookup(folder, Some("file1.txt")), Err(FsError::PathNotFound));
    assert_eq!(fs.readdir_plan(folder), Ok("folder1".to_string()));
    let inside = fs.readdir(folder, 0, Ok(list_path("folder1"))).unwrap();
    assert_eq!(inside.len(), 3);
    let file = fs.lookup(folder, Some("file1.txt")).unwrap();
    assert_eq!(file.ino, inside[2].ino);
    assert_eq!(file.size, 1024);
    assert_eq!(file.kind, FileType::RegularFile);
    assert_eq!(fs.registry().resolve_path_of(file.ino), Ok("/folder1/file1.txt".to_string()));
}

#[test]
fn getattr_of_unknown_inode_fails() {
    let fs = RemoteFs::new("http://localhost:3000");
    assert_eq!(fs.getattr(2), Err(FsError::UnknownInode));
    assert_eq!(fs.getattr(0), Err(FsError::UnknownInode));
    assert_eq!(fs.getattr(u64::MAX), Err(FsError::UnknownInode));
}

#[test]
fn read_is_not_supported() {
    let fs = RemoteFs::new("http://localhost:3000");
    assert_eq!(fs.read(ROOT_INODE, 0, 4096), Err(FsError::NotSupported));
    assert_eq!(fs.read(99, -1, 0), Err(FsError::NotSupported));
}

#[test]
fn plan_asks_for_the_listing_of_every_known_inode() {
    let mut fs = RemoteFs::new("http://localhost:3000");
    assert_eq!(fs.readdir_plan(ROOT_INODE), Ok(String::new()));
    let root = fs.readdir(ROOT_INODE, 0, Ok(list_root())).unwrap();
    assert_eq!(fs.readdir_plan(root[2].ino), Ok("Documents".to_string()));
    assert_eq!(fs.readdir_plan(root[4].ino), Ok("folder1".to_string()));
    assert_eq!(fs.readdir_plan(root[3].ino), Ok("image.jpg".to_string()));
}

#[test]
fn plan_and_read_of_unknown_inode_fail() {
    let mut fs = RemoteFs::new("http://localhost:3000");
    assert_eq!(fs.readdir_plan(42), Err(FsError::UnknownInode));
    assert_eq!(fs.readdir(42, 0, Ok(root_listing())), Err(FsError::UnknownInode));
    assert_eq!(fs.readdir(42, 3, Ok(vec![])), Err(FsError::UnknownInode));
    assert_eq!(fs.registry().next_inode(), ROOT_INODE + 1);
}

#[test]
fn read_from_offset_one_starts_at_dotdot() {
    let mut fs = RemoteFs::new("http://localhost:3000");
    let entries = fs.readdir(ROOT_INODE, 1, Ok(root_listing())).unwrap();
    assert_eq!(
        entries,
        vec![
            reply(ROOT_INODE, 2, FileType::Directory, ".."),
            reply(2, 3, FileType::Directory, "Documents"),
            reply(3, 4, FileType::RegularFile, "image.jpg"),
        ]
    );
}

#[test]
fn read_from_later_offsets_of_a_fetched_listing() {
    let mut fs = RemoteFs::new("http://localhost:3000");
    let from_three = fs.readdir(ROOT_INODE, 3, Ok(root_listing())).unwrap();
    assert_eq!(from_three, vec![reply(3, 4, FileType::RegularFile, "image.jpg")]);
    let from_end = fs.readdir(ROOT_INODE, 4, Ok(root_listing())).unwrap();
    assert!(from_end.is_empty());
    let past_end = fs.readdir(ROOT_INODE, 5, Ok(root_listing())).unwrap();
    assert!(past_end.is_empty());
}

#[test]
fn read_resumes_after_a_full_buffer() {
    let mut fs = RemoteFs::new("http://localhost:3000");
    let whole = fs.readdir(ROOT_INODE, 0, Ok(root_listing())).unwrap();
    assert_eq!(whole.len(), 4);
    for taken in 0..=whole.len() {
        let resume_at = if taken == 0 { 0 } else { whole[taken - 1].offset };
        assert_eq!(resume_at, taken as i64);
        let rest = fs.readdir(ROOT_INODE, resume_at, Ok(root_listing())).unwrap();
        let mut joined = whole[..taken].to_vec();
        joined.extend(rest);
        assert_eq!(joined, whole);
    }
}

#[test]
fn read_resumed_at_offset_three_hands_out_the_last_entry() {
    let mut fs = RemoteFs::new("http://localhost:3000");
    let first = fs.readdir(ROOT_INODE, 0, Ok(root_listing())).unwrap();
    assert_eq!(first[2], reply(2, 3, FileType::Directory, "Documents"));
    let rest = fs.readdir(ROOT_INODE, 3, Ok(root_listing())).unwrap();
    assert_eq!(rest, vec![reply(3, 4, FileType::RegularFile, "image.jpg")]);
    assert_eq!(fs.registry().next_inode(), 4);
}

#[test]
fn read_from_negative_offset_returns_nothing_but_merges() {
    let mut fs = RemoteFs::new("http://localhost:3000");
    assert_eq!(fs.readdir(ROOT_INODE, -1, Ok(root_listing())), Ok(vec![]));
    assert_eq!(fs.registry().resolve_inode_of("/image.jpg"), Some(3));
    assert_eq!(fs.readdir(ROOT_INODE, i64::MIN, Ok(vec![])), Ok(vec![]));
}

#[test]
fn read_of_empty_listing_has_synthetic_entries_only() {
    let mut fs = RemoteFs::new("http://localhost:3000");
    let entries = fs.readdir(ROOT_INODE, 0, Ok(vec![])).unwrap();
    assert_eq!(entries.len(), 2);
    assert_eq!(entries[0].name, ".");
    assert_eq!(entries[1].name, "..");
}

#[test]
fn dotdot_of_subdirectory_is_its_parent() {
    let mut fs = RemoteFs::new("http://localhost:3000");
    let root = fs.readdir(ROOT_INODE, 0, Ok(list_root())).unwrap();
    let folder = root[4].ino;
    let inside = fs
        .readdir(folder, 0, Ok(vec![listed("sub", "directory", 0)]))
        .unwrap();
    assert_eq!(inside[0], reply(folder, 1, FileType::Directory, "."));
    assert_eq!(inside[1], reply(ROOT_INODE, 2, FileType::Directory, ".."));
    let sub = inside[2].ino;
    assert_eq!(fs.readdir_plan(sub), Ok("folder1/sub".to_string()));
    let deeper = fs.readdir(sub, 0, Ok(vec![])).unwrap();
    assert_eq!(deeper[0], reply(sub, 1, FileType::Directory, "."));
    assert_eq!(deeper[1], reply(folder, 2, FileType::Directory, ".."));
}

#[test]
fn second_enumeration_refreshes_size_and_keeps_inode() {
    let mut fs = RemoteFs::new("http://localhost:3000");
    fs.readdir(ROOT_INODE, 0, Ok(root_listing())).unwrap();
    let before = fs.lookup(ROOT_INODE, Some("image.jpg")).unwrap();
    let changed = vec![listed("image.jpg", "directory", 5), listed("new.txt", "file", 1)];
    let entries = fs.readdir(ROOT_INODE, 0, Ok(changed)).unwrap();
    assert_eq!(entries[2], reply(3, 3, FileType::RegularFile, "image.jpg"));
    assert_eq!(entries[3], reply(4, 4, FileType::RegularFile, "new.txt"));
    let after = fs.lookup(ROOT_INODE, Some("image.jpg")).unwrap();
    assert_eq!(after.ino, before.ino);
    assert_eq!(after.kind, before.kind);
    assert_eq!(after.size, 5);
    assert_eq!(fs.registry().resolve_inode_of("/Documents"), Some(2));
}

#[test]
fn read_fails_whole_when_inode_numbers_run_out() {
    let registry = InodeRegistry::with_next_inode(u64::MAX - 1);
    let mut fs = RemoteFs::with_registry("http://localhost:3000", registry);
    assert_eq!(fs.readdir(ROOT_INODE, 0, Ok(root_listing())), Err(FsError::LimitExceeded));
    assert_eq!(fs.registry().next_inode(), u64::MAX - 1);
    assert_eq!(fs.registry().resolve_inode_of("/Documents"), None);
    let one = fs.readdir(ROOT_INODE, 0, Ok(vec![listed("a", "file", 1)])).unwrap();
    assert_eq!(one[2].ino, u64::MAX - 1);
}

#[test]
fn changed_remote_order_renumbers_offsets_but_not_inodes() {
    let mut fs = RemoteFs::new("http://localhost:3000");
    let first = fs.readdir(ROOT_INODE, 0, Ok(root_listing())).unwrap();
    let mut reversed = root_listing();
    reversed.reverse();
    let second = fs.readdir(ROOT_INODE, 0, Ok(reversed)).unwrap();
    assert_eq!(first[2], reply(2, 3, FileType::Directory, "Documents"));
    assert_eq!(first[3], reply(3, 4, FileType::RegularFile, "image.jpg"));
    assert_eq!(second[2], reply(3, 3, FileType::RegularFile, "image.jpg"));
    assert_eq!(second[3], reply(2, 4, FileType::Directory, "Documents"));
}

#[test]
fn entries_from_skips_to_the_offset() {
    let all = vec![
        reply(1, 1, FileType::Directory, "."),
        reply(1, 2, FileType::Directory, ".."),
        reply(2, 3, FileType::RegularFile, "a"),
    ];
    assert_eq!(entries_from(all.clone(), 0), all);
    assert_eq!(entries_from(all.clone(), 2), vec![reply(2, 3, FileType::RegularFile, "a")]);
    assert_eq!(entries_from(all.clone(), 3), vec![]);
    assert_eq!(entries_from(all.clone(), 4), vec![]);
    assert_eq!(entries_from(all.clone(), -1), vec![]);
    assert_eq!(entries_from(all.clone(), i64::MAX), vec![]);
    assert_eq!(entries_from(vec![], 0), vec![]);
}

#[test]
fn lookup_of_child_of_never_enumerated_directory_fails() {
    let mut fs = RemoteFs::new("http://localhost:3000");
    let root = fs.readdir(ROOT_INODE, 0, Ok(list_root())).unwrap();
    let documents = root[2].ino;
    assert_eq!(fs.lookup(documents, Some("anything")), Err(FsError::PathNotFound));
}

#[test]
fn open_is_not_supported() {
    let fs = RemoteFs::new("http://localhost:3000");
    assert_eq!(fs.open(ROOT_INODE, 0), Err(FsError::NotSupported));
    assert_eq!(fs.open(99, 2), Err(FsError::NotSupported));
}

#[test]
fn bindings_stay_over_many_requests() {
    let mut fs = RemoteFs::new("http://localhost:3000");
    let first = fs.readdir(ROOT_INODE, 0, Ok(root_listing())).unwrap();
    let (ino, kind) = (first[3].ino, first[3].kind);
    for round in 0..20u64 {
        let _ = fs.getattr(round);
        let _ = fs.lookup(ROOT_INODE, Some("ghost.txt"));
        let _ = fs.readdir(ROOT_INODE, 0, Err(FetchError::Transport));
        let _ = fs.readdir(ROOT_INODE, 0, Ok(vec![listed(&format!("extra{}", round), "file", round)]));
        let _ = fs.readdir(first[2].ino, 0, Ok(vec![listed("image.jpg", "directory", 1)]));
        let attr = fs.lookup(ROOT_INODE, Some("image.jpg")).unwrap();
        assert_eq!(attr.ino, ino);
        assert_eq!(attr.kind, kind);
    }
}

#[test]
fn read_again_at_the_number_limit_takes_no_number() {
    let registry = InodeRegistry::with_next_inode(u64::MAX - 2);
    let mut fs = RemoteFs::with_registry("http://localhost:3000", registry);
    let first = fs.readdir(ROOT_INODE, 0, Ok(root_listing())).unwrap();
    assert_eq!(fs.registry().next_inode(), u64::MAX);
    let rest = fs.readdir(ROOT_INODE, 3, Ok(root_listing())).unwrap();
    assert_eq!(rest, first[3..].to_vec());
    let mut grown = root_listing();
    grown.push(listed("new.txt", "file", 1));
    assert_eq!(fs.readdir(ROOT_INODE, 0, Ok(grown)), Err(FsError::LimitExceeded));
    assert_eq!(fs.registry().resolve_inode_of("/new.txt"), None);
}
