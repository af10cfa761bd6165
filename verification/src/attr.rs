//! Attribute records: what the kernel is told about one entry.

use std::time::SystemTime;
use vstd::prelude::*;

verus! {

/// `std::time::SystemTime`, carried through as an opaque value.
#[verifier::external_type_specification]
#[verifier::external_body]
pub struct ExSystemTime(std::time::SystemTime);

/// The size of a block in which `blocks` is counted.
pub const BLOCK_SIZE: u64 = 512;

/// The preferred I/O block size that every record reports.
pub const IO_BLOCK_SIZE: u32 = 512;

/// The owner that every record reports.
pub const DEFAULT_UID: u32 = 501;

/// The group that every record reports.
pub const DEFAULT_GID: u32 = 20;

/// The permission bits of a directory.
pub const DIRECTORY_PERM: u16 = 0o755;

/// The permission bits of a regular file.
pub const FILE_PERM: u16 = 0o644;

/// The kind of an entry.
#[derive(Clone, Copy, Debug, PartialEq, Eq, Hash, Structural)]
pub enum FileType {
    Directory,
    RegularFile,
}

/// The four timestamps of a record.
#[derive(Clone, Copy, Debug)]
pub struct Timestamps {
    pub atime: SystemTime,
    pub mtime: SystemTime,
    pub ctime: SystemTime,
    pub crtime: SystemTime,
}

/// The attribute record of one inode.
#[derive(Clone, Copy, Debug, PartialEq, Eq)]
pub struct FileAttr {
    /// Inode number.
    pub ino: u64,
    /// Size in bytes.
    pub size: u64,
    /// Size in blocks of `BLOCK_SIZE` bytes, as of the record's creation.
    pub blocks: u64,
    /// Time of last access.
    pub atime: SystemTime,
    /// Time of last modification.
    pub mtime: SystemTime,
    /// Time of last change.
    pub ctime: SystemTime,
    /// Time of creation.
    pub crtime: SystemTime,
    /// Kind of entry.
    pub kind: FileType,
    /// Permission bits.
    pub perm: u16,
    /// Number of hard links.
    pub nlink: u32,
    /// Owner.
    pub uid: u32,
    /// Group.
    pub gid: u32,
    /// Device number.
    pub rdev: u32,
    /// Preferred I/O block size.
    pub blksize: u32,
    /// Flags.
    pub flags: u32,
}

/// The number of blocks that `size` bytes take: `size / BLOCK_SIZE`, rounded up.
pub open spec fn block_count(size: u64) -> u64 {
    ((size + (BLOCK_SIZE - 1)) / (BLOCK_SIZE as int)) as u64
}

/// The link count of an entry of the given kind: 2 for a directory (itself
/// and its parent), 1 for a file.
pub open spec fn link_count(kind: FileType) -> u32 {
    match kind {
        FileType::Directory => 2,
        FileType::RegularFile => 1,
    }
}

/// The permission bits that an entry of the given kind is created with.
pub open spec fn default_perm(kind: FileType) -> u16 {
    match kind {
        FileType::Directory => DIRECTORY_PERM,
        FileType::RegularFile => FILE_PERM,
    }
}

/// The record that `create_file_attr` makes at the times `stamps`.
pub open spec fn fresh_attr(
    ino: u64,
    kind: FileType,
    size: u64,
    perm: u16,
    stamps: Timestamps,
) -> FileAttr {
    FileAttr {
        ino,
        size,
        blocks: block_count(size),
        atime: stamps.atime,
        mtime: stamps.mtime,
        ctime: stamps.ctime,
        crtime: stamps.crtime,
        kind,
        perm,
        nlink: link_count(kind),
        uid: DEFAULT_UID,
        gid: DEFAULT_GID,
        rdev: 0,
        blksize: IO_BLOCK_SIZE,
        flags: 0,
    }
}

impl FileAttr {
    /// The four timestamps of the record.
    pub open spec fn stamps(self) -> Timestamps {
        Timestamps { atime: self.atime, mtime: self.mtime, ctime: self.ctime, crtime: self.crtime }
    }

    /// The record with its size replaced, everything else kept.
    pub open spec fn with_size(self, size: u64) -> FileAttr {
        FileAttr { size, ..self }
    }

    /// What holds of every record that the registry keeps, whatever its
    /// inode, size and times: link count by kind, fixed owner and group, no
    /// device, no flags.
    pub open spec fn well_formed(self) -> bool {
        &&& self.nlink == link_count(self.kind)
        &&& self.uid == DEFAULT_UID
        &&& self.gid == DEFAULT_GID
        &&& self.rdev == 0
        &&& self.blksize == IO_BLOCK_SIZE
        &&& self.flags == 0
    }
}

/// Reads the clock.
///
/// Calls `SystemTime::now`. Nothing is claimed of the value: two readings may
/// differ in any way.
#[verifier::external_body]
fn system_now() -> SystemTime {
    SystemTime::now()
}

impl Timestamps {
    /// Reads the clock once for each of the four timestamps.
    pub fn now() -> Timestamps {
        Timestamps {
            atime: system_now(),
            mtime: system_now(),
            ctime: system_now(),
            crtime: system_now(),
        }
    }
}

/// Counts the blocks of `BLOCK_SIZE` bytes that `size` bytes take.
pub fn blocks_for(size: u64) -> (blocks: u64)
    ensures
        blocks == block_count(size),
{
    let whole: u64 = size / BLOCK_SIZE;
    if size % BLOCK_SIZE == 0 {
        whole
    } else {
        whole + 1
    }
}

/// Returns the link count of an entry of the given kind.
pub fn nlink_for(kind: FileType) -> (nlink: u32)
    ensures
        nlink == link_count(kind),
{
    match kind {
        FileType::Directory => 2,
        FileType::RegularFile => 1,
    }
}

/// Returns the permission bits that an entry of the given kind is created with.
pub fn perm_for(kind: FileType) -> (perm: u16)
    ensures
        perm == default_perm(kind),
{
    match kind {
        FileType::Directory => DIRECTORY_PERM,
        FileType::RegularFile => FILE_PERM,
    }
}

/// Makes the record of a new entry with the given timestamps.
pub fn file_attr_at(ino: u64, kind: FileType, size: u64, perm: u16, stamps: Timestamps) -> (attr:
    FileAttr)
    ensures
        attr == fresh_attr(ino, kind, size, perm, stamps),
{
    FileAttr {
        ino,
        size,
        blocks: blocks_for(size),
        atime: stamps.atime,
        mtime: stamps.mtime,
        ctime: stamps.ctime,
        crtime: stamps.crtime,
        kind,
        perm,
        nlink: nlink_for(kind),
        uid: DEFAULT_UID,
        gid: DEFAULT_GID,
        rdev: 0,
        blksize: IO_BLOCK_SIZE,
        flags: 0,
    }
}

/// Makes the record of a new entry, with the clock's readings as its four
/// timestamps. Every other field is a function of the arguments.
pub fn create_file_attr(ino: u64, kind: FileType, size: u64, perm: u16) -> (attr: FileAttr)
    ensures
        attr == fresh_attr(ino, kind, size, perm, attr.stamps()),
{
    file_attr_at(ino, kind, size, perm, Timestamps::now())
}

} // verus!
