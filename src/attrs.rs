use vstd::prelude::*;

verus! {

/// Block size reported to the kernel.
pub const BLOCK_SIZE: u32 = 512;

/// Permission bits of a directory created through this filesystem.
pub const DIR_PERM: u16 = 0o755;

/// Permission bits of a file created through this filesystem.
pub const FILE_PERM: u16 = 0o644;

/// A point in time as whole seconds and nanoseconds since the Unix epoch.
#[derive(Clone, Copy, Debug, PartialEq, Eq, Structural)]
pub struct Timestamp {
    pub secs: u64,
    pub nanos: u32,
}

impl Timestamp {
    /// The Unix epoch, the fallback for times that cannot be read.
    pub fn epoch() -> (r: Timestamp)
        ensures
            r.secs == 0 && r.nanos == 0,
    {
        Timestamp { secs: 0, nanos: 0 }
    }
}

/// The two kinds of objects that the remote store holds.
#[derive(Clone, Copy, Debug, PartialEq, Eq, Structural)]
pub enum FileKind {
    Directory,
    RegularFile,
}

/// The owner that every object is reported with.
#[derive(Clone, Copy, Debug, PartialEq, Eq, Structural)]
pub struct Owner {
    pub uid: u32,
    pub gid: u32,
}

/// A kernel-shaped attribute record.
#[derive(Clone, Copy, Debug, PartialEq, Eq, Structural)]
pub struct Attrs {
    pub size: u64,
    pub blocks: u64,
    pub atime: Timestamp,
    pub mtime: Timestamp,
    pub ctime: Timestamp,
    pub crtime: Timestamp,
    pub kind: FileKind,
    pub perm: u16,
    pub nlink: u32,
    pub uid: u32,
    pub gid: u32,
    pub blksize: u32,
}

/// Number of 512-byte blocks that hold `size` bytes, rounded up.
pub open spec fn blocks_for(size: u64) -> int {
    (size as int + 511) / 512
}

pub open spec fn kind_of(is_dir: bool) -> FileKind {
    if is_dir {
        FileKind::Directory
    } else {
        FileKind::RegularFile
    }
}

pub open spec fn nlink_of(is_dir: bool) -> u32 {
    if is_dir {
        2
    } else {
        1
    }
}

/// The low nine permission bits of a remote mode.
pub open spec fn perm_of(mode: u32) -> u16 {
    (mode & 0o777u32) as u16
}

pub open spec fn default_perm(is_dir: bool) -> u16 {
    if is_dir {
        DIR_PERM
    } else {
        FILE_PERM
    }
}

/// The attribute record of an object with the given metadata.
pub open spec fn projected(
    is_dir: bool,
    size: u64,
    mtime: Timestamp,
    ctime: Timestamp,
    perm: u16,
    owner: Owner,
) -> Attrs {
    Attrs {
        size,
        blocks: blocks_for(size) as u64,
        atime: mtime,
        mtime,
        ctime,
        crtime: ctime,
        kind: kind_of(is_dir),
        perm,
        nlink: nlink_of(is_dir),
        uid: owner.uid,
        gid: owner.gid,
        blksize: BLOCK_SIZE,
    }
}

/// The record of a file or directory that was just made, empty, at `now`.
pub open spec fn fresh(is_dir: bool, now: Timestamp, owner: Owner) -> Attrs {
    projected(is_dir, 0, now, now, default_perm(is_dir), owner)
}

/// `attr` after a write that left the object `size` bytes long at `now`.
pub open spec fn after_write(attr: Attrs, size: u64, now: Timestamp) -> Attrs {
    Attrs { size, blocks: blocks_for(size) as u64, mtime: now, ..attr }
}

/// Number of 512-byte blocks that hold `size` bytes.
pub fn block_count(size: u64) -> (r: u64)
    ensures
        r == blocks_for(size),
{
    let whole = size / 512;
    let r = if size % 512 == 0 {
        whole
    } else {
        whole + 1
    };
    assert(r == blocks_for(size)) by (nonlinear_arith)
        requires
            whole == size / 512,
            r == if size % 512 == 0 { whole } else { (whole + 1) as u64 },
    ;
    r
}

/// The attribute record of an object that the remote store describes: kind
/// from `is_dir`, the low nine bits of `mode`, access time equal to `mtime`.
pub fn project(
    is_dir: bool,
    size: u64,
    mtime: Timestamp,
    ctime: Timestamp,
    mode: u32,
    owner: Owner,
) -> (r: Attrs)
    ensures
        r == projected(is_dir, size, mtime, ctime, perm_of(mode), owner),
        r.perm <= 0o777,
{
    let perm = (mode & 0o777u32) as u16;
    assert(perm <= 0o777) by (bit_vector)
        requires
            perm == (mode & 0o777u32) as u16,
    ;
    Attrs {
        size,
        blocks: block_count(size),
        atime: mtime,
        mtime,
        ctime,
        crtime: ctime,
        kind: if is_dir {
            FileKind::Directory
        } else {
            FileKind::RegularFile
        },
        perm,
        nlink: if is_dir {
            2
        } else {
            1
        },
        uid: owner.uid,
        gid: owner.gid,
        blksize: BLOCK_SIZE,
    }
}

/// The record of a file or directory made through this filesystem at `now`:
/// size zero, mode 0o755 for a directory and 0o644 for a file.
pub fn fresh_attrs(is_dir: bool, now: Timestamp, owner: Owner) -> (r: Attrs)
    ensures
        r == fresh(is_dir, now, owner),
{
    let perm = if is_dir {
        DIR_PERM
    } else {
        FILE_PERM
    };
    Attrs {
        size: 0,
        blocks: 0,
        atime: now,
        mtime: now,
        ctime: now,
        crtime: now,
        kind: if is_dir {
            FileKind::Directory
        } else {
            FileKind::RegularFile
        },
        perm,
        nlink: if is_dir {
            2
        } else {
            1
        },
        uid: owner.uid,
        gid: owner.gid,
        blksize: BLOCK_SIZE,
    }
}

/// `attr` after a write that left the object `size` bytes long at `now`.
pub fn written_attrs(attr: Attrs, size: u64, now: Timestamp) -> (r: Attrs)
    ensures
        r == after_write(attr, size, now),
{
    Attrs { size, blocks: block_count(size), mtime: now, ..attr }
}

} // verus!
