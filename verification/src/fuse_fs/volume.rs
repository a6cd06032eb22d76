//! The volume as a whole, and extended attributes.

use crate::fuse_fs::attrs::CachedAttr;
use crate::fuse_fs::errno::{ENODATA, ERANGE};
use crate::fuse_fs::listing::{listing_view, Fetch};
use crate::fuse_fs::{FsView, UnidriveFs};
use crate::ipc::{IpcError, IpcErrorView, ListEntry, ListEntryView};
use crate::text::same;
use vstd::prelude::*;
use vstd::utf8::{encode_utf8, is_ascii_chars, is_ascii_chars_encode_utf8};

verus! {

/// The most bytes that one write carries.
pub const MAX_WRITE: u32 = 1048576;

/// For how many seconds the kernel may keep an entry or its attributes.
pub const TTL_SECS: u64 = 1;

/// How large the volume is. It is made up: large and empty.
#[derive(Debug, Clone, Copy, PartialEq, Eq, Structural)]
pub struct StatFs {
    pub blocks: u64,
    pub bfree: u64,
    pub bavail: u64,
    pub files: u64,
    pub ffree: u64,
    pub bsize: u32,
    pub namelen: u32,
    pub frsize: u32,
}

/// Answers `statfs`: 2^32 blocks of 4 KiB, all of them free.
pub fn statfs() -> (r: StatFs)
    ensures
        r == (StatFs {
            blocks: 0x1_0000_0000,
            bfree: 0x1_0000_0000,
            bavail: 0x1_0000_0000,
            files: 0x10_0000,
            ffree: 0x10_0000,
            bsize: 4096,
            namelen: 255,
            frsize: 4096,
        }),
{
    StatFs {
        blocks: 0x1_0000_0000,
        bfree: 0x1_0000_0000,
        bavail: 0x1_0000_0000,
        files: 0x10_0000,
        ffree: 0x10_0000,
        bsize: 4096,
        namelen: 255,
        frsize: 4096,
    }
}

/// An extended attribute, or how long it is.
#[derive(Debug)]
pub enum XAttr<B> {
    Size(u32),
    Data(B),
}

impl View for XAttr<Vec<u8>> {
    type V = XAttr<Seq<u8>>;

    open spec fn view(&self) -> XAttr<Seq<u8>> {
        match self {
            XAttr::Size(n) => XAttr::Size(*n),
            XAttr::Data(bytes) => XAttr::Data(bytes@),
        }
    }
}

/// The list of the names of extended attributes, each with a NUL at its end.
/// There is one, which says whether a file's content lies in the cache.
pub open spec fn xattr_names() -> Seq<u8> {
    encode_utf8("user.unidrive.hydrated"@).push(0)
}

/// What a question with room for `size` bytes is answered: with no room, the
/// length; with too little, an error.
pub open spec fn sized(bytes: Seq<u8>, size: u32) -> Result<XAttr<Seq<u8>>, i32> {
    if size == 0 {
        Ok(XAttr::Size(bytes.len() as u32))
    } else if size < bytes.len() {
        Err(ERANGE)
    } else {
        Ok(XAttr::Data(bytes))
    }
}

/// `1` for content that lies in the cache, else `0`.
pub open spec fn hydrated_flag(a: CachedAttr) -> Seq<u8> {
    if a.is_hydrated {
        seq![49]
    } else {
        seq![48]
    }
}

impl FsView {
    /// What `getxattr` answers, or which directory to list first.
    pub open spec fn getxattr(self, inode: u64, name: Option<Seq<char>>, size: u32) -> Fetch<
        XAttr<Seq<u8>>,
        Seq<char>,
    > {
        if name == Some("user.unidrive.hydrated"@) {
            match self.fetch_attr(inode) {
                Fetch::Done(Ok(a)) => Fetch::Done(sized(hydrated_flag(a), size)),
                Fetch::Done(Err(e)) => Fetch::Done(Err(e)),
                Fetch::List { prefix } => Fetch::List { prefix },
            }
        } else {
            Fetch::Done(Err(ENODATA))
        }
    }

    /// What `getxattr` answers once a directory was listed.
    pub open spec fn getxattr_listed(
        self,
        inode: u64,
        size: u32,
        listing: Result<Seq<ListEntryView>, IpcErrorView>,
    ) -> Result<XAttr<Seq<u8>>, i32> {
        match self.fetched_attr(inode, listing) {
            Ok(a) => sized(hydrated_flag(a), size),
            Err(e) => Err(e),
        }
    }
}

/// An answer about an extended attribute as it is seen.
pub open spec fn xattr_view(r: Result<XAttr<Vec<u8>>, i32>) -> Result<XAttr<Seq<u8>>, i32> {
    match r {
        Ok(x) => Ok(x@),
        Err(e) => Err(e),
    }
}

/// An answer about an extended attribute, or a directory to list, as it is
/// seen.
pub open spec fn xattr_fetch_view(f: Fetch<XAttr<Vec<u8>>, String>) -> Fetch<
    XAttr<Seq<u8>>,
    Seq<char>,
> {
    match f {
        Fetch::Done(r) => Fetch::Done(xattr_view(r)),
        Fetch::List { prefix } => Fetch::List { prefix: prefix@ },
    }
}

fn flag_answer(a: CachedAttr, size: u32) -> (r: Result<XAttr<Vec<u8>>, i32>)
    ensures
        xattr_view(r) == sized(hydrated_flag(a), size),
{
    if size == 0 {
        return Ok(XAttr::Size(1));
    }
    let mut bytes: Vec<u8> = Vec::new();
    bytes.push(
        if a.is_hydrated {
            49
        } else {
            48
        },
    );
    assert(bytes@ =~= hydrated_flag(a));
    Ok(XAttr::Data(bytes))
}

/// The names of all extended attributes take this many bytes.
proof fn lemma_xattr_names_len()
    ensures
        xattr_names().len() == 23,
{
    reveal_strlit("user.unidrive.hydrated");
    let name = "user.unidrive.hydrated"@;
    assert(is_ascii_chars(name));
    is_ascii_chars_encode_utf8(name);
}

impl UnidriveFs {
    /// Answers `getxattr`, or says which directory to list first. Only whether
    /// a file's content lies in the cache can be asked.
    pub fn getxattr(&self, inode: u64, name: Option<&str>, size: u32) -> (r: Fetch<
        XAttr<Vec<u8>>,
        String,
    >)
        ensures
            xattr_fetch_view(r) == self@.getxattr(
                inode,
                match name {
                    Some(s) => Some(s@),
                    None => None,
                },
                size,
            ),
    {
        let known = match name {
            Some(name) => same(name, "user.unidrive.hydrated"),
            None => false,
        };
        if !known {
            return Fetch::Done(Err(ENODATA));
        }
        match self.get_or_fetch_attr(inode) {
            Fetch::Done(Ok(a)) => Fetch::Done(flag_answer(a, size)),
            Fetch::Done(Err(e)) => Fetch::Done(Err(e)),
            Fetch::List { prefix } => Fetch::List { prefix },
        }
    }

    /// Ends a `getxattr` for which a directory was listed.
    pub fn getxattr_listed(
        &mut self,
        inode: u64,
        size: u32,
        listing: Result<Vec<ListEntry>, IpcError>,
    ) -> (r: Result<XAttr<Vec<u8>>, i32>)
        requires
            old(self)@.wf(),
            old(self)@.fits_listing(listing_view(listing)),
        ensures
            final(self)@.wf(),
            final(self)@ == old(self)@.after_listing(listing_view(listing)),
            xattr_view(r) == old(self)@.getxattr_listed(inode, size, listing_view(listing)),
    {
        match self.fetched_attr(inode, listing) {
            Ok(a) => flag_answer(a, size),
            Err(e) => Err(e),
        }
    }
}

/// Answers `listxattr`.
pub fn listxattr(size: u32) -> (r: Result<XAttr<Vec<u8>>, i32>)
    ensures
        xattr_view(r) == sized(xattr_names(), size),
{
    proof {
        lemma_xattr_names_len();
    }
    if size == 0 {
        return Ok(XAttr::Size(23));
    }
    if size < 23 {
        return Err(ERANGE);
    }
    let name = "user.unidrive.hydrated";
    let mut bytes = crate::unix_path::concat(name.as_bytes(), &[]);
    bytes.push(0);
    assert(bytes@ =~= xattr_names());
    Ok(XAttr::Data(bytes))
}

/// Answers `setxattr`: what is set is dropped, and the caller hears of no
/// error.
pub fn setxattr() -> (r: Result<(), i32>)
    ensures
        r == Ok::<(), i32>(()),
{
    Ok(())
}

/// Answers `removexattr`: there is none to remove.
pub fn removexattr() -> (r: Result<(), i32>)
    ensures
        r == Err::<(), i32>(ENODATA),
{
    Err(ENODATA)
}

/// A write carries at most 1 MiB, and the kernel keeps an entry for a second.
pub proof fn the_kernel_is_told_of_limits()
    ensures
        MAX_WRITE == 1024 * 1024,
        TTL_SECS == 1,
{
}

/// The volume is empty: all that it has is free. Setting an extended attribute
/// never fails, and removing one always does.
pub proof fn the_volume_is_empty(
    st: StatFs,
    set: Result<(), i32>,
    removed: Result<(), i32>,
    size: u32,
    listed: Result<XAttr<Vec<u8>>, i32>,
)
    requires
        call_ensures(statfs, (), st),
        call_ensures(setxattr, (), set),
        call_ensures(removexattr, (), removed),
        call_ensures(listxattr, (size,), listed),
    ensures
        st.blocks == st.bfree && st.blocks == st.bavail && st.blocks * st.bsize == 0x1000_0000_0000,
        st.files == st.ffree && st.files == 0x10_0000,
        st.bsize == 4096 && st.frsize == 4096 && st.namelen == 255,
        set is Ok,
        removed matches Err(e) && e == 61,
        size == 0 ==> (listed matches Ok(XAttr::Size(n)) && n == 23),
        0 < size < 23 ==> (listed matches Err(e) && e == 34),
        size >= 23 ==> (listed matches Ok(XAttr::Data(bytes)) && bytes@ == encode_utf8(
            "user.unidrive.hydrated"@,
        ) + seq![0u8]),
{
    lemma_xattr_names_len();
    assert(xattr_names() =~= encode_utf8("user.unidrive.hydrated"@) + seq![0u8]);
}

}
