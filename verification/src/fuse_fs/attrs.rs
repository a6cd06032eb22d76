//! What is known of an entry, and how it is shown to the kernel.

use crate::ipc::{ListEntry, ListEntryView};
use vstd::prelude::*;

verus! {

/// What the daemon last said of an entry.
#[derive(Debug, Clone, Copy, PartialEq, Eq, Structural)]
pub struct CachedAttr {
    pub size: u64,
    pub mtime_ms: i64,
    pub is_folder: bool,
    pub is_hydrated: bool,
}

/// What a listed entry says.
pub open spec fn attr_of(e: ListEntryView) -> CachedAttr {
    CachedAttr {
        size: e.size,
        mtime_ms: e.mtime_ms,
        is_folder: e.folder,
        is_hydrated: e.hydrated,
    }
}

/// The root: a directory of which nothing else matters.
pub open spec fn root_attr() -> CachedAttr {
    CachedAttr { size: 0, mtime_ms: 0, is_folder: true, is_hydrated: false }
}

impl CachedAttr {
    /// What a listed entry says.
    pub fn from_entry(e: &ListEntry) -> (r: CachedAttr)
        ensures
            r == attr_of(e@),
    {
        CachedAttr {
            size: e.size,
            mtime_ms: e.mtime_ms,
            is_folder: e.folder,
            is_hydrated: e.hydrated,
        }
    }
}

/// The kinds of entry that there are.
#[derive(Debug, Clone, Copy, PartialEq, Eq, Structural)]
pub enum FileType {
    Directory,
    RegularFile,
}

/// The user and group that own everything in the mount.
#[derive(Debug, Clone, Copy, PartialEq, Eq, Structural)]
pub struct Owner {
    pub uid: u32,
    pub gid: u32,
}

/// The attributes of an inode. Access, change and modification time are one.
#[derive(Debug, Clone, Copy, PartialEq, Eq, Structural)]
pub struct FileAttr {
    pub ino: u64,
    pub size: u64,
    pub blocks: u64,
    pub secs: i64,
    pub nsec: u32,
    pub kind: FileType,
    pub perm: u16,
    pub nlink: u32,
    pub uid: u32,
    pub gid: u32,
    pub rdev: u32,
    pub blksize: u32,
}

/// Whole seconds of a time in milliseconds, rounded towards 0.
pub open spec fn whole_seconds(ms: int) -> int {
    if ms >= 0 {
        ms / 1000
    } else {
        -((-ms) / 1000)
    }
}

/// The nanoseconds of a time in milliseconds beyond its whole seconds. They
/// have the sign of the time, and a negative number is taken modulo 2^32.
pub open spec fn subsec_nanos(ms: int) -> int {
    ((ms - whole_seconds(ms) * 1000) * 1000000) % 0x1_0000_0000
}

/// The kind of an entry.
pub open spec fn kind_of(is_folder: bool) -> FileType {
    if is_folder {
        FileType::Directory
    } else {
        FileType::RegularFile
    }
}

/// What the kernel is shown of an entry: directories are `rwxr-xr-x` with two
/// links, files are `rw-r--r--` with one; the size in blocks of 512 bytes is
/// rounded up.
pub open spec fn shown(ino: u64, c: CachedAttr, owner: Owner) -> FileAttr {
    FileAttr {
        ino,
        size: c.size,
        blocks: ((c.size + 511) / 512) as u64,
        secs: whole_seconds(c.mtime_ms as int) as i64,
        nsec: subsec_nanos(c.mtime_ms as int) as u32,
        kind: kind_of(c.is_folder),
        perm: if c.is_folder {
            0o755
        } else {
            0o644
        },
        nlink: if c.is_folder {
            2
        } else {
            1
        },
        uid: owner.uid,
        gid: owner.gid,
        rdev: 0,
        blksize: 4096,
    }
}

/// The kind of an entry.
pub fn kind(is_folder: bool) -> (r: FileType)
    ensures
        r == kind_of(is_folder),
{
    if is_folder {
        FileType::Directory
    } else {
        FileType::RegularFile
    }
}

/// What the kernel is shown of an entry.
pub fn file_attr_from_cached(ino: u64, c: &CachedAttr, owner: Owner) -> (r: FileAttr)
    ensures
        r == shown(ino, *c, owner),
{
    let negative = c.mtime_ms < 0;
    let ms: i128 = if negative {
        -(c.mtime_ms as i128)
    } else {
        c.mtime_ms as i128
    };
    let rest: i128 = (ms % 1000) * 1000000;
    let secs: i64 = if negative {
        (-(ms / 1000)) as i64
    } else {
        (ms / 1000) as i64
    };
    let nsec: u32 = if negative && rest > 0 {
        (0x1_0000_0000 - rest) as u32
    } else {
        rest as u32
    };
    let blocks: u64 = if c.size % 512 == 0 {
        c.size / 512
    } else {
        c.size / 512 + 1
    };
    FileAttr {
        ino,
        size: c.size,
        blocks,
        secs,
        nsec,
        kind: kind(c.is_folder),
        perm: if c.is_folder {
            0o755
        } else {
            0o644
        },
        nlink: if c.is_folder {
            2
        } else {
            1
        },
        uid: owner.uid,
        gid: owner.gid,
        rdev: 0,
        blksize: 4096,
    }
}

/// A time in milliseconds since the epoch as `millis as i64` gives it; 0 for a
/// clock before the epoch.
pub open spec fn clock_ms(millis: Option<u128>) -> i64 {
    match millis {
        Some(ms) => ms as i64,
        None => 0,
    }
}

/// The time that a new entry gets.
pub fn mtime_now(millis: Option<u128>) -> (r: i64)
    ensures
        r == clock_ms(millis),
{
    match millis {
        Some(ms) => ms as i64,
        None => 0,
    }
}

/// What is known of a listed entry is what it says: its size, time, kind, and
/// whether its content lies in the cache.
pub proof fn listed_entry_is_taken_at_its_word(e: ListEntryView)
    ensures
        attr_of(e).size == e.size,
        attr_of(e).mtime_ms == e.mtime_ms,
        attr_of(e).is_folder == e.folder,
        attr_of(e).is_hydrated == e.hydrated,
{
}

/// The kernel is shown an entry under its inode, with its size, in as many
/// blocks of 512 bytes as hold it, and with its kind, to which rights and links
/// go; it belongs to the owner of the mount. A time from the epoch on is shown
/// to the millisecond; one before it rounds its seconds towards the epoch, and
/// its nanoseconds are the negative rest modulo 2^32.
pub proof fn entry_is_shown_as_it_is(ino: u64, c: CachedAttr, owner: Owner)
    ensures
        ({
            let a = shown(ino, c, owner);
            &&& a.ino == ino
            &&& a.size == c.size
            &&& c.size <= a.blocks * 512 < c.size + 512
            &&& c.mtime_ms >= 0 ==> a.nsec < 1_000_000_000 && a.nsec % 1_000_000 == 0
                && a.secs * 1000 + a.nsec / 1_000_000 == c.mtime_ms
            &&& c.mtime_ms < 0 ==> c.mtime_ms <= a.secs * 1000 < c.mtime_ms + 1000 && (a.nsec
                + (a.secs * 1000 - c.mtime_ms) * 1_000_000) % 0x1_0000_0000 == 0
            &&& a.kind is Directory <==> c.is_folder
            &&& c.is_folder ==> a.perm == 0o755 && a.nlink == 2
            &&& !c.is_folder ==> a.perm == 0o644 && a.nlink == 1
            &&& a.uid == owner.uid && a.gid == owner.gid
            &&& a.rdev == 0 && a.blksize == 4096
        }),
{
}

/// A new entry has the time of the clock.
pub proof fn new_entries_have_the_time(ms: u128)
    requires
        ms <= i64::MAX,
    ensures
        clock_ms(Some(ms)) == ms,
        clock_ms(None) == 0,
{
}

}
