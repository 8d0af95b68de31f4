//! Metadata of the entries of the tree. Every entry is owned by one fixed user
//! and group, carries fixed permission bits and has all its timestamps at the
//! epoch; a directory and a regular file differ in kind, permissions, link
//! count and size.

use vstd::prelude::*;

verus! {

/// Permission bits of every directory.
pub const DIR_PERM: u16 = 0o755;

/// Permission bits of every regular file.
pub const FILE_PERM: u16 = 0o644;

/// Owner of every entry.
pub const OWNER_UID: u32 = 501;

/// Group of every entry.
pub const OWNER_GID: u32 = 20;

/// Preferred block size reported for every entry.
pub const BLOCK_SIZE: u32 = 512;

/// Seconds for which the transport may keep an answer before asking again.
pub const ATTR_TTL_SECS: u64 = 1;

/// What an entry is.
#[derive(Clone, Copy, Debug, PartialEq, Eq, Structural)]
pub enum FileType {
    Directory,
    RegularFile,
}

/// Metadata of one entry, as a filesystem transport reports it. Timestamps
/// are whole seconds after the epoch.
#[derive(Clone, Copy, Debug, PartialEq, Eq, Structural)]
pub struct FileAttr {
    pub ino: u64,
    pub size: u64,
    pub blocks: u64,
    pub atime: u64,
    pub mtime: u64,
    pub ctime: u64,
    pub crtime: u64,
    pub kind: FileType,
    pub perm: u16,
    pub nlink: u32,
    pub uid: u32,
    pub gid: u32,
    pub rdev: u32,
    pub flags: u32,
    pub blksize: u32,
}

/// The metadata of the directory with identifier `ino`.
pub open spec fn dir_attr(ino: u64) -> FileAttr {
    FileAttr {
        ino,
        size: 0,
        blocks: 0,
        atime: 0,
        mtime: 0,
        ctime: 0,
        crtime: 0,
        kind: FileType::Directory,
        perm: DIR_PERM,
        nlink: 2,
        uid: OWNER_UID,
        gid: OWNER_GID,
        rdev: 0,
        flags: 0,
        blksize: BLOCK_SIZE,
    }
}

/// The metadata of the regular file with identifier `ino` and `size` bytes of
/// content.
pub open spec fn file_attr(ino: u64, size: u64) -> FileAttr {
    FileAttr {
        ino,
        size,
        blocks: 1,
        atime: 0,
        mtime: 0,
        ctime: 0,
        crtime: 0,
        kind: FileType::RegularFile,
        perm: FILE_PERM,
        nlink: 1,
        uid: OWNER_UID,
        gid: OWNER_GID,
        rdev: 0,
        flags: 0,
        blksize: BLOCK_SIZE,
    }
}

impl FileAttr {
    /// Metadata of a directory.
    pub fn directory(ino: u64) -> (attr: FileAttr)
        ensures
            attr == dir_attr(ino),
    {
        FileAttr {
            ino,
            size: 0,
            blocks: 0,
            atime: 0,
            mtime: 0,
            ctime: 0,
            crtime: 0,
            kind: FileType::Directory,
            perm: DIR_PERM,
            nlink: 2,
            uid: OWNER_UID,
            gid: OWNER_GID,
            rdev: 0,
            flags: 0,
            blksize: BLOCK_SIZE,
        }
    }

    /// Metadata of a regular file of `size` bytes.
    pub fn regular_file(ino: u64, size: u64) -> (attr: FileAttr)
        ensures
            attr == file_attr(ino, size),
    {
        FileAttr {
            ino,
            size,
            blocks: 1,
            atime: 0,
            mtime: 0,
            ctime: 0,
            crtime: 0,
            kind: FileType::RegularFile,
            perm: FILE_PERM,
            nlink: 1,
            uid: OWNER_UID,
            gid: OWNER_GID,
            rdev: 0,
            flags: 0,
            blksize: BLOCK_SIZE,
        }
    }
}

} // verus!
