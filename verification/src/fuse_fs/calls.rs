//! The operations, as they are called, do what is said of the state of a mount:
//! for whatever mount they are called on, the state that they leave and their
//! answer are those that the state before gives.

use crate::fuse_fs::attrs::{CachedAttr, FileAttr, Owner};
use crate::fuse_fs::directories::{row_views, DirectoryEntry, DirectoryEntryPlus};
use crate::fuse_fs::handles::{request_views, Fsync, PendingFile, PendingOpen};
use crate::fuse_fs::listing::{listing_view, numbered, numbered_views, Fetch, Lookup};
use crate::fuse_fs::namespace::{name_view, CreatedFile, PendingCreate};
use crate::fuse_fs::setattr::{Setattr, Waiting};
use crate::fuse_fs::volume::{xattr_view, XAttr};
use crate::fuse_fs::{FsView, OpenHandle, UnidriveFs};
use crate::ipc::{entry_views, reply_view, IpcError, ListEntry, Reply, Request};
use vstd::prelude::*;

verus! {

/// An open that begins hands out what is to be asked, or why not.
pub proof fn opens_begin_as_said(inode: u64, flags: u32)
    ensures
        forall|fs: &mut UnidriveFs, r: Result<PendingOpen<String>, i32>| #[trigger]
            call_ensures(UnidriveFs::open, (fs, inode, flags), r) ==> {
                let (after, said) = (*fs)@.open(inode, flags);
                &&& (*final(fs))@ == after
                &&& match r {
                    Ok(p) => said matches Ok(s) && p.path@ == s.path && p.handle_id@ == s.handle_id
                        && p.writable == s.writable && p.truncating == s.truncating,
                    Err(e) => said == Err::<PendingOpen<Seq<char>>, i32>(e),
                }
            },
{
}

/// An open goes on with the request and the cache file that are said.
pub proof fn opens_go_on_as_said(
    pending: PendingOpen<String>,
    reply: Reply,
    request: Request<String>,
    r: Result<PendingFile<String>, i32>,
)
    requires
        call_ensures(PendingOpen::<String>::request, (&pending,), request),
        call_ensures(PendingOpen::<String>::replied, (pending, reply), r),
    ensures
        request@ == pending@.request(),
        match r {
            Ok(file) => pending@.replied(reply_view(reply)) matches Ok(s) && file.cache_path@
                == s.cache_path && file.open.path@ == s.open.path && file.open.handle_id@
                == s.open.handle_id && file.open.writable == s.open.writable
                && file.open.truncating == s.open.truncating,
            Err(e) => pending@.replied(reply_view(reply)) == Err::<PendingFile<Seq<char>>, i32>(e),
        },
{
}

/// Opening, writing, syncing and releasing a file change the state as is said.
pub proof fn files_are_used_as_said(
    file: PendingFile<String>,
    fh: u64,
    ok: bool,
    n: Option<usize>,
    reply: Reply,
)
    ensures
        forall|fs: &mut UnidriveFs, r: Result<u64, i32>| #[trigger]
            call_ensures(UnidriveFs::opened, (fs, file, ok), r) ==> ((*final(fs))@, r)
                == (*fs)@.opened(file@, ok),
        forall|fs: &mut UnidriveFs, r: Result<u32, i32>| #[trigger]
            call_ensures(UnidriveFs::wrote, (fs, fh, n), r) ==> ((*final(fs))@, r) == (*fs)@.wrote(
                fh,
                n,
            ),
        forall|fs: &mut UnidriveFs, r: Fsync<String>| #[trigger]
            call_ensures(UnidriveFs::synced, (fs, fh, ok), r) ==> ((*final(fs))@, r@)
                == (*fs)@.synced(fh, ok),
        forall|fs: &mut UnidriveFs, r: Result<(), i32>| #[trigger]
            call_ensures(UnidriveFs::uploaded, (fs, fh, reply), r) ==> ((*final(fs))@, r)
                == (*fs)@.uploaded(fh, reply_view(reply)),
        forall|fs: &mut UnidriveFs, r: Vec<Request<String>>| #[trigger]
            call_ensures(UnidriveFs::release, (fs, fh), r) ==> (*final(fs))@
                == (*fs)@.without_handle(fh) && request_views(r@) == (*fs)@.release_requests(fh),
        forall|fs: &mut UnidriveFs, r: Vec<Request<String>>| #[trigger]
            call_ensures(UnidriveFs::made_node, (fs, fh), r) ==> (*final(fs))@
                == (*fs)@.without_handle(fh) && request_views(r@) == (*fs)@.closing_requests(fh),
{
}

/// Making a file asks, goes on and ends as is said.
pub proof fn files_are_made_as_said(
    parent: u64,
    name: Option<&str>,
    pending: PendingCreate<String>,
    reply: Reply,
    request: Request<String>,
    went_on: Result<CreatedFile<String>, i32>,
    file: CreatedFile<String>,
    ok: bool,
    now: Option<u128>,
    owner: Owner,
)
    requires
        call_ensures(PendingCreate::<String>::request, (&pending,), request),
        call_ensures(PendingCreate::<String>::replied, (pending, reply), went_on),
    ensures
        forall|fs: &mut UnidriveFs, r: Result<PendingCreate<String>, i32>| #[trigger]
            call_ensures(UnidriveFs::create_internal, (fs, parent, name), r) ==> {
                let (after, said) = (*fs)@.create(parent, name_view(name));
                &&& (*final(fs))@ == after
                &&& match r {
                    Ok(p) => said matches Ok(s) && p.path@ == s.path && p.handle_id@ == s.handle_id,
                    Err(e) => said == Err::<PendingCreate<Seq<char>>, i32>(e),
                }
            },
        request@ == pending@.request(),
        match went_on {
            Ok(f) => pending@.replied(reply_view(reply)) matches Ok(s) && f.path@ == s.path
                && f.handle_id@ == s.handle_id && f.cache_path@ == s.cache_path,
            Err(e) => pending@.replied(reply_view(reply)) == Err::<CreatedFile<Seq<char>>, i32>(e),
        },
        forall|fs: &mut UnidriveFs, r: Result<(u64, FileAttr, u64), i32>| #[trigger]
            call_ensures(UnidriveFs::created, (fs, file, ok, now, owner), r) ==> (
            (*final(fs))@,
            r,
        ) == (*fs)@.created(file@, ok, now, owner),
{
}

/// Making a directory, removing and moving change the state as is said.
pub proof fn names_change_as_said(
    path: &str,
    to: &str,
    reply: Reply,
    now: Option<u128>,
    owner: Owner,
)
    ensures
        forall|fs: &mut UnidriveFs, r: Result<FileAttr, i32>| #[trigger]
            call_ensures(UnidriveFs::made_directory, (fs, path, reply, now, owner), r) ==> (
            (*final(fs))@,
            r,
        ) == (*fs)@.made_directory(path@, reply_view(reply), now, owner),
        forall|fs: &mut UnidriveFs, r: Result<Option<Vec<u8>>, i32>| #[trigger]
            call_ensures(UnidriveFs::removed, (fs, path, reply), r) ==> {
                let (after, said) = (*fs)@.removed(path@, reply_view(reply));
                &&& (*final(fs))@ == after
                &&& match (r, said) {
                    (Ok(None), Ok(None)) => true,
                    (Ok(Some(at)), Ok(Some(place))) => at@ == place,
                    (Err(e), Err(number)) => e == number,
                    _ => false,
                }
            },
        forall|fs: &mut UnidriveFs, r: Result<(), i32>| #[trigger]
            call_ensures(UnidriveFs::moved, (fs, path, to, reply), r) ==> ((*final(fs))@, r)
                == (*fs)@.moved(path@, to@, reply_view(reply)),
{
}

/// A `setattr` begins and goes on as is said.
pub proof fn attributes_change_as_said(
    inode: u64,
    fh: Option<u64>,
    size: Option<u64>,
    handle: u64,
    length: u64,
    ok: bool,
    waiting: Waiting<String>,
    reply: Reply,
    path: String,
    handle_id: String,
    cache_path: String,
    resized: Setattr<String>,
)
    requires
        call_ensures(
            UnidriveFs::cache_resized,
            (path, handle_id, cache_path, length, ok),
            resized,
        ),
    ensures
        forall|fs: &mut UnidriveFs, r: Setattr<String>| #[trigger]
            call_ensures(UnidriveFs::setattr, (fs, inode, fh, size), r) ==> ((*final(fs))@, r@)
                == (*fs)@.setattr(inode, fh, size),
        forall|fs: &mut UnidriveFs, r: Setattr<String>| #[trigger]
            call_ensures(UnidriveFs::handle_resized, (fs, inode, handle, length, ok), r) ==> (
            (*final(fs))@,
            r@,
        ) == (*fs)@.handle_resized(inode, handle, length, ok),
        forall|fs: &mut UnidriveFs, r: Setattr<String>| #[trigger]
            call_ensures(UnidriveFs::setattr_replied, (fs, inode, waiting, reply), r) ==> (
            (*final(fs))@,
            r@,
        ) == (*fs)@.setattr_replied(inode, waiting@, reply_view(reply)),
        resized@ == FsView::cache_resized(path@, handle_id@, cache_path@, length, ok),
{
}

/// What was listed is numbered and remembered, and what waited for it is
/// answered, as is said.
pub proof fn listings_are_used_as_said(
    entries: Vec<ListEntry>,
    listing: Result<Vec<ListEntry>, IpcError>,
    path: &str,
    inode: u64,
    offset: i64,
    size: u32,
    owner: Owner,
)
    ensures
        forall|fs: &mut UnidriveFs, r: Vec<(u64, ListEntry)>| #[trigger]
            call_ensures(UnidriveFs::populate_from_list, (fs, entries), r) ==> (*final(fs))@
                == (*fs)@.populated(entry_views(entries@)) && numbered_views(r@) == numbered(
                (*final(fs))@.paths,
                entry_views(entries@),
            ),
        forall|fs: &mut UnidriveFs, r: Result<FileAttr, i32>| #[trigger]
            call_ensures(UnidriveFs::lookup_listed, (fs, path, listing, owner), r)
                ==> (*final(fs))@ == (*fs)@.after_listing(listing_view(listing)) && r
                == (*fs)@.lookup_listed(path@, listing_view(listing), owner),
        forall|fs: &mut UnidriveFs, r: Result<CachedAttr, i32>| #[trigger]
            call_ensures(UnidriveFs::fetched_attr, (fs, inode, listing), r) ==> (*final(fs))@
                == (*fs)@.after_listing(listing_view(listing)) && r == (*fs)@.fetched_attr(
                inode,
                listing_view(listing),
            ),
        forall|fs: &mut UnidriveFs, r: Result<FileAttr, i32>| #[trigger]
            call_ensures(UnidriveFs::getattr_listed, (fs, inode, listing, owner), r)
                ==> (*final(fs))@ == (*fs)@.after_listing(listing_view(listing)) && r
                == (*fs)@.getattr_listed(inode, listing_view(listing), owner),
        forall|fs: &mut UnidriveFs, r: Result<Vec<DirectoryEntry<String>>, i32>| #[trigger]
            call_ensures(UnidriveFs::readdir_listed, (fs, inode, offset, listing), r) ==> {
                &&& (*final(fs))@ == (*fs)@.after_listing(listing_view(listing))
                &&& match (r, (*fs)@.readdir_listed(inode, offset, listing_view(listing))) {
                    (Ok(rows), Ok(said)) => row_views(rows@) == said,
                    (Err(e), Err(number)) => e == number,
                    _ => false,
                }
            },
        forall|
            fs: &mut UnidriveFs,
            r: Result<(Vec<(u64, ListEntry)>, Fetch<CachedAttr, String>), i32>,
        | #[trigger]
            call_ensures(UnidriveFs::readdirplus_listed, (fs, inode, listing), r) ==> {
                &&& (*final(fs))@ == (*fs)@.after_listing(listing_view(listing))
                &&& r is Ok <==> listing is Ok
                &&& r matches Ok((listed, own)) ==> own@ == (*final(fs))@.fetch_attr(inode)
                    && numbered_views(listed@) == numbered(
                    (*final(fs))@.paths,
                    listing_view(listing)->Ok_0,
                )
            },
        forall|fs: &mut UnidriveFs, r: Result<XAttr<Vec<u8>>, i32>| #[trigger]
            call_ensures(UnidriveFs::getxattr_listed, (fs, inode, size, listing), r)
                ==> (*final(fs))@ == (*fs)@.after_listing(listing_view(listing)) && xattr_view(r)
                == (*fs)@.getxattr_listed(inode, size, listing_view(listing)),
{
}

/// What is seen of an answer, a request or an entry is what it holds, field by
/// field.
pub proof fn answers_are_seen_as_they_are(
    row: DirectoryEntryPlus<String>,
    sync: Fsync<String>,
    attr: XAttr<Vec<u8>>,
    found: Lookup<String>,
    entry: ListEntry,
    open: PendingOpen<String>,
    file: PendingFile<String>,
    handle: OpenHandle<String>,
)
    ensures
        row@.attr == row.attr,
        row@.entry.inode == row.entry.inode,
        row@.entry.kind == row.entry.kind,
        row@.entry.name == row.entry.name@,
        row@.entry.offset == row.entry.offset,
        match (sync, sync@) {
            (Fsync::Done(r), Fsync::Done(seen)) => r == seen,
            (Fsync::Upload(request), Fsync::Upload(seen)) => request@ == seen,
            _ => false,
        },
        match (attr, attr@) {
            (XAttr::Size(n), XAttr::Size(seen)) => n == seen,
            (XAttr::Data(bytes), XAttr::Data(seen)) => bytes@ == seen,
            _ => false,
        },
        match (found, found@) {
            (Lookup::Done(r), Lookup::Done(seen)) => r == seen,
            (Lookup::List { parent_path, child_path }, Lookup::List { parent_path: p, child_path: c })
                => parent_path@ == p && child_path@ == c,
            _ => false,
        },
        entry@.path == entry.path@,
        entry@.size == entry.size,
        entry@.mtime_ms == entry.mtime_ms,
        entry@.hydrated == entry.hydrated,
        entry@.folder == entry.folder,
        open@.path == open.path@,
        open@.handle_id == open.handle_id@,
        open@.writable == open.writable,
        open@.truncating == open.truncating,
        file@.open == file.open@,
        file@.cache_path == file.cache_path@,
        handle@.handle_id == handle.handle_id@,
        handle@.remote_path == handle.remote_path@,
        handle@.cache_path == handle.cache_path@,
        handle@.dirty == handle.dirty,
{
}

/// What is seen of a request is what it holds: its verb, and each of its texts
/// under its name.
pub proof fn requests_are_seen_as_they_are(request: Request<String>)
    ensures
        match (request, request@) {
            (Request::OpenRead { handle_id, path }, Request::OpenRead { handle_id: h, path: p })
                => handle_id@ == h && path@ == p,
            (
                Request::OpenWrite { handle_id, path, cache_path },
                Request::OpenWrite { handle_id: h, path: p, cache_path: c },
            ) => handle_id@ == h && path@ == p && cache_path@ == c,
            (
                Request::OpenWriteBegin { path, handle_id: None },
                Request::OpenWriteBegin { path: p, handle_id: None },
            ) => path@ == p,
            (
                Request::OpenWriteBegin { path, handle_id: Some(id) },
                Request::OpenWriteBegin { path: p, handle_id: Some(h) },
            ) => path@ == p && id@ == h,
            (Request::CloseHandle { handle_id }, Request::CloseHandle { handle_id: h })
                => handle_id@ == h,
            (Request::Hydrate { path }, Request::Hydrate { path: p }) => path@ == p,
            (Request::Dehydrate { path }, Request::Dehydrate { path: p }) => path@ == p,
            (Request::Subscribe, Request::Subscribe) => true,
            (Request::LastSynced { path }, Request::LastSynced { path: p }) => path@ == p,
            (Request::List { prefix }, Request::List { prefix: p }) => prefix@ == p,
            (Request::Mkdir { path }, Request::Mkdir { path: p }) => path@ == p,
            (Request::Unlink { path }, Request::Unlink { path: p }) => path@ == p,
            (Request::Rmdir { path }, Request::Rmdir { path: p }) => path@ == p,
            (Request::Create { handle_id, path }, Request::Create { handle_id: h, path: p })
                => handle_id@ == h && path@ == p,
            (
                Request::Rename { old_path, new_path },
                Request::Rename { old_path: from, new_path: to },
            ) => old_path@ == from && new_path@ == to,
            _ => false,
        },
{
}

/// What is seen of a step of a `setattr` is what it holds.
pub proof fn steps_are_seen_as_they_are(step: Setattr<String>, waiting: Waiting<String>)
    ensures
        match (step, step@) {
            (Setattr::Failed(e), Setattr::Failed(seen)) => e == seen,
            (Setattr::ResizeHandle { fh, size }, Setattr::ResizeHandle { fh: f, size: n }) => fh == f
                && size == n,
            (
                Setattr::ResizeCache { path, handle_id, cache_path, size },
                Setattr::ResizeCache { path: p, handle_id: h, cache_path: c, size: n },
            ) => path@ == p && handle_id@ == h && cache_path@ == c && size == n,
            (
                Setattr::Ask { request, waiting },
                Setattr::Ask { request: asked, waiting: seen },
            ) => request@ == asked && waiting@ == seen,
            (Setattr::Refresh, Setattr::Refresh) => true,
            _ => false,
        },
        match (waiting, waiting@) {
            (Waiting::Emptying { path }, Waiting::Emptying { path: p }) => path@ == p,
            (
                Waiting::Fetching { path, handle_id, size },
                Waiting::Fetching { path: p, handle_id: h, size: n },
            ) => path@ == p && handle_id@ == h && size == n,
            (
                Waiting::Uploading { handle_id, size },
                Waiting::Uploading { handle_id: h, size: n },
            ) => handle_id@ == h && size == n,
            (
                Waiting::Closing { size, outcome },
                Waiting::Closing { size: n, outcome: seen },
            ) => size == n && outcome == seen,
            _ => false,
        },
{
}

}
