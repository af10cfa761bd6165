use remote_fs::attr::{
    blocks_for, create_file_attr, file_attr_at, nlink_for, perm_for, FileType, Timestamps,
};
use std::time::{Duration, SystemTime, UNIX_EPOCH};

#[test]
fn blocks_round_up() {
    assert_eq!(blocks_for(0), 0);
    assert_eq!(blocks_for(1), 1);
    assert_eq!(blocks_for(511), 1);
    assert_eq!(blocks_for(512), 1);
    assert_eq!(blocks_for(513), 2);
    assert_eq!(blocks_for(1024), 2);
    assert_eq!(blocks_for(102400), 200);
}

#[test]
fn blocks_of_the_largest_size_do_not_overflow() {
    assert_eq!(blocks_for(u64::MAX), 1u64 << 55);
    assert_eq!(blocks_for(u64::MAX - 511), (1u64 << 55) - 1);
    assert_eq!(blocks_for(u64::MAX - 510), 1u64 << 55);
}

#[test]
fn directories_have_two_links_and_files_one() {
    assert_eq!(nlink_for(FileType::Directory), 2);
    assert_eq!(nlink_for(FileType::RegularFile), 1);
}

#[test]
fn permissions_by_kind() {
    assert_eq!(perm_for(FileType::Directory), 0o755);
    assert_eq!(perm_for(FileType::RegularFile), 0o644);
}

#[test]
fn file_attr_at_fills_every_field() {
    let stamps = Timestamps {
        atime: UNIX_EPOCH + Duration::from_secs(1),
        mtime: UNIX_EPOCH + Duration::from_secs(2),
        ctime: UNIX_EPOCH + Duration::from_secs(3),
        crtime: UNIX_EPOCH + Duration::from_secs(4),
    };
    let attr = file_attr_at(7, FileType::RegularFile, 1025, 0o600, stamps);
    assert_eq!(attr.ino, 7);
    assert_eq!(attr.size, 1025);
    assert_eq!(attr.blocks, 3);
    assert_eq!(attr.atime, UNIX_EPOCH + Duration::from_secs(1));
    assert_eq!(attr.mtime, UNIX_EPOCH + Duration::from_secs(2));
    assert_eq!(attr.ctime, UNIX_EPOCH + Duration::from_secs(3));
    assert_eq!(attr.crtime, UNIX_EPOCH + Duration::from_secs(4));
    assert_eq!(attr.kind, FileType::RegularFile);
    assert_eq!(attr.perm, 0o600);
    assert_eq!(attr.nlink, 1);
    assert_eq!(attr.uid, 501);
    assert_eq!(attr.gid, 20);
    assert_eq!(attr.rdev, 0);
    assert_eq!(attr.blksize, 512);
    assert_eq!(attr.flags, 0);
}

#[test]
fn create_file_attr_for_a_directory() {
    let before = SystemTime::now();
    let attr = create_file_attr(1, FileType::Directory, 0, 0o755);
    let after = SystemTime::now();
    assert_eq!(attr.ino, 1);
    assert_eq!(attr.size, 0);
    assert_eq!(attr.blocks, 0);
    assert_eq!(attr.kind, FileType::Directory);
    assert_eq!(attr.perm, 0o755);
    assert_eq!(attr.nlink, 2);
    assert_eq!(attr.uid, 501);
    assert_eq!(attr.gid, 20);
    assert_eq!(attr.rdev, 0);
    assert_eq!(attr.blksize, 512);
    assert_eq!(attr.flags, 0);
    assert!(before <= attr.atime && attr.atime <= after);
    assert!(before <= attr.crtime && attr.crtime <= after);
}

#[test]
fn create_file_attr_for_a_file() {
    let attr = create_file_attr(9, FileType::RegularFile, 102400, 0o644);
    assert_eq!(attr.ino, 9);
    assert_eq!(attr.size, 102400);
    assert_eq!(attr.blocks, 200);
    assert_eq!(attr.kind, FileType::RegularFile);
    assert_eq!(attr.perm, 0o644);
    assert_eq!(attr.nlink, 1);
}
