//! What each operation does, said of what goes into it and what comes out.

use crate::fuse_fs::attrs::{
    attr_of, entry_is_shown_as_it_is, root_attr, CachedAttr, FileAttr, FileType, Owner,
};
use crate::fuse_fs::directories::{
    directory, directory_plus, directory_shows_what_is_listed, from_offset, representable,
    DirectoryEntry, DirectoryEntryPlus,
};
use crate::fuse_fs::errno::error_numbers_have_their_reasons;
use crate::fuse_fs::handles::{Fsync, PendingFile, PendingOpen};
use crate::fuse_fs::listing::{
    find_entry, lemma_populated, listed_attrs_are_remembered, numbered, Fetch, Lookup,
};
use crate::fuse_fs::names::{
    entries_stand_behind_a_slash, entry_path_splits, only_start_slashes_are_dropped, without_start_slashes,
};
use crate::fuse_fs::namespace::{regular_mode, CreatedFile, PendingCreate};
use crate::fuse_fs::setattr::{Setattr, Waiting};
use crate::fuse_fs::volume::{sized, xattr_names, XAttr};
use crate::fuse_fs::{FsView, UnidriveFs};
use crate::ipc::{answered_bare, answered_path, IpcErrorView, ListEntryView, Request};
use crate::json::JsonView;
use crate::text::decimal;
use crate::unix_path::{below, joined_by_one_slash, joined_is_below, relative};
use vstd::prelude::*;
use vstd::utf8::{encode_utf8, encode_utf8_decode_utf8};

verus! {

/// From `a` to `b` nothing changed but, perhaps, the open files.
pub open spec fn names_kept(a: FsView, b: FsView) -> bool {
    &&& b.paths.inodes == a.paths.inodes
    &&& b.paths.paths == a.paths.paths
    &&& b.paths.next == a.paths.next
    &&& b.attrs == a.attrs
    &&& b.cache_root == a.cache_root
}

/// From `a` to `b` nothing changed but, perhaps, names and what is known of
/// them.
pub open spec fn files_kept(a: FsView, b: FsView) -> bool {
    &&& b.handles == a.handles
    &&& b.next_fh == a.next_fh
    &&& b.next_handle_id == a.next_handle_id
    &&& b.cache_root == a.cache_root
}

/// From `a` to `b` no open file but `fh` changed, came or went.
pub open spec fn others_kept(a: FsView, b: FsView, fh: u64) -> bool {
    forall|x: u64|
        x != fh ==> (#[trigger] b.handles.contains_key(x) <==> a.handles.contains_key(x)) && (
        a.handles.contains_key(x) ==> b.handles[x] == a.handles[x])
}

/// A success that carries a cache path.
pub open spec fn carries_path(reply: Result<JsonView, IpcErrorView>, path: Seq<char>) -> bool {
    reply matches Ok(JsonView::Object(m)) && m.contains_key("ok"@) && m["ok"@] == JsonView::Bool(
        true,
    ) && m.contains_key("cache_path"@) && m["cache_path"@] == JsonView::Str(path)
}

/// A success.
pub open spec fn succeeds(reply: Result<JsonView, IpcErrorView>) -> bool {
    reply matches Ok(JsonView::Object(m)) && m.contains_key("ok"@) && m["ok"@] == JsonView::Bool(
        true,
    )
}

/// An open is accepted exactly for what has a path and is not the root. It is
/// for the path of the inode. It asks for a cache file that can be written
/// exactly if the access mode bits of the flags are those for writing, or for
/// reading and writing, whether the file is to be emptied or not; and it
/// empties the file exactly if it can be written and the flags ask for it. Its
/// id is made of the kind of the open and of a number that is then used up.
/// Nothing else changes.
pub proof fn open_takes_its_mode_from_the_flags(v: FsView, inode: u64, flags: u32)
    ensures
        ({
            let (after, r) = v.open(inode, flags);
            let write = flags & 3 == 1 || flags & 3 == 2;
            &&& r is Ok <==> v.paths.paths.contains_key(inode) && v.paths.paths[inode].len() > 0
            &&& r matches Err(e) ==> after == v && e == if v.paths.paths.contains_key(inode) {
                21i32
            } else {
                2i32
            }
            &&& r matches Ok(pending) ==> {
                &&& pending.path == v.paths.paths[inode]
                &&& pending.writable <==> write
                &&& pending.truncating <==> write && flags & 512 != 0
                &&& pending.handle_id == if write {
                    seq!['w', 'h', '-'] + decimal(v.next_handle_id as nat)
                } else {
                    seq!['r', 'h', '-'] + decimal(v.next_handle_id as nat)
                }
                &&& v.next_handle_id < u64::MAX ==> after.next_handle_id == v.next_handle_id + 1
                &&& names_kept(v, after)
                &&& after.handles == v.handles
                &&& after.next_fh == v.next_fh
            }
        }),
{
    reveal_strlit("wh-");
    reveal_strlit("rh-");
    assert("wh-"@ =~= seq!['w', 'h', '-']);
    assert("rh-"@ =~= seq!['r', 'h', '-']);
}

/// What the daemon is asked for an open names its path and its id. Where the
/// answer carries a cache path, that file is opened for what was asked, in the
/// mode that was asked; else the open fails with the number of the error.
pub proof fn open_goes_on_with_what_was_asked(
    pending: PendingOpen<Seq<char>>,
    reply: Result<JsonView, IpcErrorView>,
    cache_path: Seq<char>,
)
    ensures
        pending.truncating ==> pending.request() == (Request::OpenWriteBegin {
            path: pending.path,
            handle_id: Some(pending.handle_id),
        }),
        !pending.truncating ==> pending.request() == (Request::OpenRead {
            handle_id: pending.handle_id,
            path: pending.path,
        }),
        carries_path(reply, cache_path) ==> pending.replied(reply) == Ok::<
            PendingFile<Seq<char>>,
            i32,
        >(PendingFile { open: pending, cache_path }),
        pending.replied(reply) matches Ok(file) ==> carries_path(reply, file.cache_path),
        answered_path(reply) matches Err(e) ==> ({
            &&& pending.replied(reply) matches Err(number)
            &&& number == 16 <==> e is Busy
            &&& !pending.truncating ==> (number == 2 <==> e == IpcErrorView::ServerError(
                "not_found"@,
            ))
            &&& !pending.truncating ==> number == 2 || number == 5 || number == 16
            &&& pending.truncating ==> (number == 21 <==> e == IpcErrorView::ServerError(
                "path_is_folder"@,
            ))
            &&& pending.truncating ==> (number == 2 <==> e == IpcErrorView::ServerError(
                "parent_not_found"@,
            ) || e == IpcErrorView::ServerError("unknown_path"@) || e == IpcErrorView::ServerError(
                "old_path_not_found"@,
            ) || e == IpcErrorView::ServerError("new_parent_not_found"@))
        }),
{
    if let Err(e) = answered_path(reply) {
        error_numbers_have_their_reasons(e);
    }
}

/// A file that was opened has the next file handle, under which its id, its
/// path and its cache file are kept as they were asked for. It is dirty exactly
/// if it was opened to be emptied. No other file is touched, and nothing else
/// changes; where the cache file could not be opened, nothing does.
pub proof fn opened_file_is_kept_as_asked(v: FsView, file: PendingFile<Seq<char>>)
    ensures
        v.opened(file, false) == (v, Err::<u64, i32>(5)),
        ({
            let (after, r) = v.opened(file, true);
            let fh = v.next_fh;
            &&& r == Ok::<u64, i32>(fh)
            &&& after.handles.contains_key(fh)
            &&& after.handles[fh].handle_id == file.open.handle_id
            &&& after.handles[fh].remote_path == file.open.path
            &&& after.handles[fh].cache_path == file.cache_path
            &&& after.handles[fh].dirty <==> file.open.truncating
            &&& others_kept(v, after, fh)
            &&& v.next_fh < u64::MAX ==> after.next_fh == v.next_fh + 1
            &&& after.next_handle_id == v.next_handle_id
            &&& names_kept(v, after)
        }),
{
}

/// A write to an open file answers with how much was written, and leaves the
/// file dirty and otherwise as it was. One that failed, or that is to no open
/// file, changes nothing.
pub proof fn write_marks_its_file(v: FsView, fh: u64, n: usize)
    ensures
        !v.handles.contains_key(fh) ==> v.wrote(fh, Some(n)) == (v, Err::<u32, i32>(9)),
        !v.handles.contains_key(fh) ==> v.wrote(fh, None) == (v, Err::<u32, i32>(9)),
        v.handles.contains_key(fh) ==> v.wrote(fh, None) == (v, Err::<u32, i32>(5)),
        v.handles.contains_key(fh) ==> ({
            let (after, r) = v.wrote(fh, Some(n));
            &&& r is Ok
            &&& n <= u32::MAX ==> r == Ok::<u32, i32>(n as u32)
            &&& after.handles.contains_key(fh)
            &&& after.handles[fh].dirty
            &&& after.handles[fh].handle_id == v.handles[fh].handle_id
            &&& after.handles[fh].remote_path == v.handles[fh].remote_path
            &&& after.handles[fh].cache_path == v.handles[fh].cache_path
            &&& others_kept(v, after, fh)
            &&& after.next_fh == v.next_fh
            &&& after.next_handle_id == v.next_handle_id
            &&& names_kept(v, after)
        }),
{
}

/// A sync of a dirty file whose cache file is on disk tells the daemon of its
/// content, under its id, its path and its cache file; meanwhile the file is
/// clean. Any other sync changes nothing and tells nothing.
pub proof fn sync_uploads_what_is_dirty(v: FsView, fh: u64, ok: bool)
    ensures
        !v.handles.contains_key(fh) ==> v.synced(fh, ok) == (
            v,
            Fsync::<Seq<char>>::Done(Err(9)),
        ),
        v.handles.contains_key(fh) && !ok ==> v.synced(fh, ok) == (
            v,
            Fsync::<Seq<char>>::Done(Err(5)),
        ),
        v.handles.contains_key(fh) && ok && !v.handles[fh].dirty ==> v.synced(fh, ok) == (
            v,
            Fsync::<Seq<char>>::Done(Ok(())),
        ),
        v.handles.contains_key(fh) && ok && v.handles[fh].dirty ==> ({
            let (after, next) = v.synced(fh, ok);
            &&& next == Fsync::Upload(
                Request::OpenWrite {
                    handle_id: v.handles[fh].handle_id,
                    path: v.handles[fh].remote_path,
                    cache_path: v.handles[fh].cache_path,
                },
            )
            &&& after.handles.contains_key(fh)
            &&& !after.handles[fh].dirty
            &&& after.handles[fh].handle_id == v.handles[fh].handle_id
            &&& after.handles[fh].remote_path == v.handles[fh].remote_path
            &&& after.handles[fh].cache_path == v.handles[fh].cache_path
            &&& others_kept(v, after, fh)
            &&& after.next_fh == v.next_fh
            &&& after.next_handle_id == v.next_handle_id
            &&& names_kept(v, after)
        }),
{
}

/// A sync succeeds exactly if the daemon took the content, and then changes
/// nothing more. Where the daemon did not, a file that is still open is dirty,
/// and otherwise as it was.
pub proof fn sync_succeeds_with_its_upload(
    v: FsView,
    fh: u64,
    reply: Result<JsonView, IpcErrorView>,
    path: Seq<char>,
)
    ensures
        carries_path(reply, path) ==> v.uploaded(fh, reply) == (v, Ok::<(), i32>(())),
        answered_path(reply) matches Err(why) ==> ({
            let (after, r) = v.uploaded(fh, reply);
            &&& r == Err::<(), i32>(
                if why is Busy {
                    16
                } else {
                    5
                },
            )
            &&& !v.handles.contains_key(fh) ==> after == v
            &&& v.handles.contains_key(fh) ==> {
                &&& after.handles.contains_key(fh)
                &&& after.handles[fh].dirty
                &&& after.handles[fh].handle_id == v.handles[fh].handle_id
                &&& after.handles[fh].remote_path == v.handles[fh].remote_path
                &&& after.handles[fh].cache_path == v.handles[fh].cache_path
            }
            &&& others_kept(v, after, fh)
            &&& after.next_fh == v.next_fh
            &&& after.next_handle_id == v.next_handle_id
            &&& names_kept(v, after)
        }),
{
}

/// Releasing an open file tells the daemon, of a dirty one, of its content,
/// under its id, its path and its cache file; and then, of any, that its id is
/// closed. The file is then no longer open; no other is touched. A node that
/// was made is told of in the same way, dirty or not.
pub proof fn release_tells_and_closes(v: FsView, fh: u64)
    ensures
        ({
            let h = v.handles[fh];
            let tell = Request::OpenWrite {
                handle_id: h.handle_id,
                path: h.remote_path,
                cache_path: h.cache_path,
            };
            let close = Request::CloseHandle { handle_id: h.handle_id };
            let after = v.without_handle(fh);
            &&& !v.handles.contains_key(fh) ==> v.release_requests(fh).len() == 0
                && v.closing_requests(fh).len() == 0
            &&& v.handles.contains_key(fh) && h.dirty ==> v.release_requests(fh) == seq![
                tell,
                close,
            ]
            &&& v.handles.contains_key(fh) && !h.dirty ==> v.release_requests(fh) == seq![close]
            &&& v.handles.contains_key(fh) ==> v.closing_requests(fh) == seq![tell, close]
            &&& !after.handles.contains_key(fh)
            &&& others_kept(v, after, fh)
            &&& after.next_fh == v.next_fh
            &&& after.next_handle_id == v.next_handle_id
            &&& names_kept(v, after)
        }),
{
}

/// What becomes of the size of an inode: it is the new one where something is
/// known of the inode, of which the kind, the time and whether its content lies
/// in the cache stay; what is known of every other inode stays, and nothing
/// comes to be known of any.
pub open spec fn only_size_changes(a: FsView, b: FsView, inode: u64, size: u64) -> bool {
    &&& forall|i: u64| #[trigger] b.attrs.contains_key(i) <==> a.attrs.contains_key(i)
    &&& forall|i: u64|
        i != inode && #[trigger] a.attrs.contains_key(i) ==> b.attrs[i] == a.attrs[i]
    &&& a.attrs.contains_key(inode) ==> {
        &&& b.attrs[inode].size == size
        &&& b.attrs[inode].is_folder == a.attrs[inode].is_folder
        &&& b.attrs[inode].mtime_ms == a.attrs[inode].mtime_ms
        &&& b.attrs[inode].is_hydrated == a.attrs[inode].is_hydrated
    }
    &&& b.paths.inodes == a.paths.inodes
    &&& b.paths.paths == a.paths.paths
    &&& b.paths.next == a.paths.next
    &&& b.cache_root == a.cache_root
    &&& b.next_fh == a.next_fh
    &&& b.next_handle_id == a.next_handle_id
}

/// A change of size that ends well gives the inode the new size and changes
/// nothing else that is known; that of an open file leaves this file dirty as
/// well. Where the change ends badly nothing changes.
pub proof fn size_change_changes_only_the_size(
    v: FsView,
    inode: u64,
    fh: u64,
    size: u64,
    reply: Result<JsonView, IpcErrorView>,
    e: i32,
)
    ensures
        ({
            let (after, next) = v.setattr_replied(
                inode,
                Waiting::Closing { size, outcome: Ok(()) },
                reply,
            );
            &&& next is Refresh
            &&& only_size_changes(v, after, inode, size)
            &&& after.handles == v.handles
        }),
        v.setattr_replied(inode, Waiting::Closing { size, outcome: Err(e) }, reply) == (
            v,
            Setattr::<Seq<char>>::Failed(e),
        ),
        v.handles.contains_key(fh) ==> ({
            let (after, next) = v.handle_resized(inode, fh, size, true);
            &&& next is Refresh
            &&& only_size_changes(v, after, inode, size)
            &&& after.handles.contains_key(fh)
            &&& after.handles[fh].dirty
            &&& after.handles[fh].handle_id == v.handles[fh].handle_id
            &&& after.handles[fh].remote_path == v.handles[fh].remote_path
            &&& after.handles[fh].cache_path == v.handles[fh].cache_path
            &&& others_kept(v, after, fh)
        }),
        v.handles.contains_key(fh) ==> v.handle_resized(inode, fh, size, false) == (
            v,
            Setattr::<Seq<char>>::Failed(5),
        ),
        !v.handles.contains_key(fh) ==> v.handle_resized(inode, fh, size, true) == (
            v,
            Setattr::<Seq<char>>::Failed(9),
        ),
{
}

/// What names a directory entry is refused where it is no text, or where the
/// directory has no path. Else its path is that of the directory, without
/// slashes at its end, a slash and the name.
pub proof fn entry_of_a_directory(v: FsView, parent: u64, name: Seq<char>)
    ensures
        v.child(parent, None) == Err::<Seq<char>, i32>(22),
        !v.paths.paths.contains_key(parent) ==> v.child(parent, Some(name)) == Err::<
            Seq<char>,
            i32,
        >(2),
        v.paths.paths.contains_key(parent) && (v.paths.paths[parent].len() > 0
            ==> v.paths.paths[parent].last() != '/') ==> v.child(parent, Some(name)) == Ok::<
            Seq<char>,
            i32,
        >(v.paths.paths[parent] + seq!['/'] + name),
{
    if v.paths.paths.contains_key(parent) {
        let pp = v.paths.paths[parent];
        if pp.len() > 0 ==> pp.last() != '/' {
            entries_stand_behind_a_slash(pp, 0, name);
            assert(pp + Seq::new(0, |i: int| '/') =~= pp);
        }
    }
}

/// From `a` to `b` the path `path` came to have an inode, its own or the next
/// one, and what is known of that inode is `c`. All other paths and inodes, and
/// what is known of them, stay.
pub open spec fn entry_added(a: FsView, b: FsView, path: Seq<char>, ino: u64, c: CachedAttr) -> bool {
    &&& ino == if a.paths.inodes.contains_key(path) {
        a.paths.inodes[path]
    } else {
        a.paths.next
    }
    &&& b.paths.inodes.contains_key(path) && b.paths.inodes[path] == ino
    &&& b.paths.paths.contains_key(ino) && b.paths.paths[ino] == path
    &&& b.attrs.contains_key(ino) && b.attrs[ino] == c
    &&& forall|p: Seq<char>|
        p != path ==> (#[trigger] b.paths.inodes.contains_key(p) <==> a.paths.inodes.contains_key(
            p,
        )) && b.paths.inodes[p] == a.paths.inodes[p]
    &&& forall|i: u64|
        i != ino ==> (#[trigger] b.paths.paths.contains_key(i) <==> a.paths.paths.contains_key(i))
            && b.paths.paths[i] == a.paths.paths[i]
    &&& forall|i: u64|
        i != ino ==> (#[trigger] b.attrs.contains_key(i) <==> a.attrs.contains_key(i))
            && b.attrs[i] == a.attrs[i]
}

/// A directory that the daemon made has an inode, and is known and shown as an
/// empty directory of the time of the clock. A refusal changes nothing, and
/// `not_empty`, `path_exists` and the like have their numbers.
pub proof fn mkdir_adds_an_empty_directory(
    v: FsView,
    path: Seq<char>,
    reply: Result<JsonView, IpcErrorView>,
    now: u128,
    owner: Owner,
)
    requires
        v.wf(),
        v.paths.next < u64::MAX,
        now <= i64::MAX,
    ensures
        ({
            let (after, r) = v.made_directory(path, reply, Some(now), owner);
            &&& succeeds(reply) <==> r is Ok
            &&& r is Err ==> after == v
            &&& answered_bare(reply) matches Err(e) ==> ({
                &&& r matches Err(number)
                &&& number == 16 <==> e is Busy
                &&& number == 17 <==> e == IpcErrorView::ServerError("path_exists"@) || e
                    == IpcErrorView::ServerError("new_path_exists"@)
            })
            &&& r matches Ok(a) ==> {
                &&& entry_added(
                    v,
                    after,
                    path,
                    a.ino,
                    CachedAttr {
                        size: 0,
                        mtime_ms: now as i64,
                        is_folder: true,
                        is_hydrated: false,
                    },
                )
                &&& files_kept(v, after)
                &&& says(a, a.ino, 0, true, now as i64, owner)
            }
        }),
{
    if let Err(e) = answered_bare(reply) {
        error_numbers_have_their_reasons(e);
    }
}

/// What the daemon removed has no inode any more, and nothing is known of the
/// one that it had. All other paths and inodes, and what is known of them, stay,
/// and so do the open files. A refusal changes nothing.
pub proof fn removal_takes_one_name(
    v: FsView,
    path: Seq<char>,
    reply: Result<JsonView, IpcErrorView>,
)
    requires
        v.wf(),
    ensures
        ({
            let (after, r) = v.removed(path, reply);
            let had = v.paths.inodes.contains_key(path);
            let ino = v.paths.inodes[path];
            &&& succeeds(reply) <==> r is Ok
            &&& r is Err ==> after == v
            &&& answered_bare(reply) matches Err(e) ==> ({
                &&& r matches Err(number)
                &&& number == 16 <==> e is Busy
                &&& number == 39 <==> e == IpcErrorView::ServerError("not_empty"@)
                &&& number == 20 <==> e == IpcErrorView::ServerError("path_is_file"@)
                &&& number == 21 <==> e == IpcErrorView::ServerError("path_is_folder"@)
            })
            &&& r is Ok ==> {
                &&& !after.paths.inodes.contains_key(path)
                &&& had ==> !after.paths.paths.contains_key(ino) && !after.attrs.contains_key(ino)
                &&& forall|p: Seq<char>|
                    p != path ==> (#[trigger] after.paths.inodes.contains_key(p)
                        <==> v.paths.inodes.contains_key(p)) && after.paths.inodes[p]
                        == v.paths.inodes[p]
                &&& forall|i: u64|
                    !(had && i == ino) ==> (#[trigger] after.paths.paths.contains_key(i)
                        <==> v.paths.paths.contains_key(i)) && after.paths.paths[i]
                        == v.paths.paths[i]
                &&& forall|i: u64|
                    !(had && i == ino) ==> (#[trigger] after.attrs.contains_key(i)
                        <==> v.attrs.contains_key(i)) && after.attrs[i] == v.attrs[i]
                &&& after.paths.next == v.paths.next
                &&& files_kept(v, after)
            }
        }),
{
    if let Err(e) = answered_bare(reply) {
        error_numbers_have_their_reasons(e);
    }
}

proof fn lemma_without_one_slash(rest: Seq<char>)
    requires
        rest.len() > 0,
        rest[0] != '/',
    ensures
        without_start_slashes(seq!['/'] + rest) == rest,
{
    let s = seq!['/'] + rest;
    let r = without_start_slashes(s);
    only_start_slashes_are_dropped(s);
    let n = s.len() - r.len();
    if n == 0 {
        assert(r[0] == s[0]);
    }
    if n > 1 {
        assert(s[1] == rest[0]);
    }
    assert(r =~= rest);
}

proof fn lemma_encoded_is_not_empty(s: Seq<char>)
    requires
        s.len() > 0,
    ensures
        encode_utf8(s).len() > 0,
{
    if encode_utf8(s).len() == 0 {
        assert(encode_utf8(s) =~= encode_utf8(Seq::empty()));
        encode_utf8_decode_utf8(s);
        encode_utf8_decode_utf8(Seq::empty());
    }
}

/// Without a cache root nothing is cleared away. With one, what is cleared away
/// for a path lies below it, and without the root it is the whole path behind
/// its leading slash, directories included.
pub proof fn evicted_content_lies_at_its_path(v: FsView, root: Seq<u8>, rest: Seq<char>)
    requires
        root.len() > 0,
        rest.len() > 0,
        rest[0] != '/',
    ensures
        v.cache_root is None ==> v.cached_at(seq!['/'] + rest) is None,
        v.cache_root == Some(root) ==> ({
            &&& v.cached_at(seq!['/'] + rest) matches Some(at)
            &&& below(root, at)
            &&& relative(root, at) == encode_utf8(rest)
            &&& at == if root.last() == 47u8 {
                root + encode_utf8(rest)
            } else {
                root + seq![47u8] + encode_utf8(rest)
            }
        }),
{
    lemma_without_one_slash(rest);
    lemma_encoded_is_not_empty(rest);
    joined_is_below(root, encode_utf8(rest));
    joined_by_one_slash(root, encode_utf8(rest));
}

/// Different paths have different places in the cache: what is cleared away for
/// one is not the content of the other.
pub proof fn eviction_spares_other_content(
    v: FsView,
    root: Seq<u8>,
    a: Seq<char>,
    b: Seq<char>,
)
    requires
        v.cache_root == Some(root),
        root.len() > 0,
        a.len() > 0,
        a[0] != '/',
        b.len() > 0,
        b[0] != '/',
        a != b,
    ensures
        v.cached_at(seq!['/'] + a) != v.cached_at(seq!['/'] + b),
{
    evicted_content_lies_at_its_path(v, root, a);
    evicted_content_lies_at_its_path(v, root, b);
    encode_utf8_decode_utf8(a);
    encode_utf8_decode_utf8(b);
}

/// A removal that the daemon accepted clears away what lies in the cache at the
/// path, and nothing else.
pub proof fn removal_evicts_its_path(
    v: FsView,
    root: Seq<u8>,
    rest: Seq<char>,
    reply: Result<JsonView, IpcErrorView>,
)
    requires
        root.len() > 0,
        rest.len() > 0,
        rest[0] != '/',
        succeeds(reply),
    ensures
        v.cache_root is None ==> v.removed(seq!['/'] + rest, reply).1 == Ok::<
            Option<Seq<u8>>,
            i32,
        >(None),
        v.cache_root == Some(root) ==> v.removed(seq!['/'] + rest, reply).1 == Ok::<
            Option<Seq<u8>>,
            i32,
        >(
            Some(
                if root.last() == 47u8 {
                    root + encode_utf8(rest)
                } else {
                    root + seq![47u8] + encode_utf8(rest)
                },
            ),
        ),
{
    evicted_content_lies_at_its_path(v, root, rest);
}

/// What the daemon moved has its inode under the new path, and no longer under
/// the old one; what the new path had before is no longer there. All other
/// paths and inodes stay, and so does all that is known, and the open files. A
/// refusal changes nothing, and neither does a move of what has no inode.
pub proof fn move_takes_the_inode_along(
    v: FsView,
    from: Seq<char>,
    to: Seq<char>,
    reply: Result<JsonView, IpcErrorView>,
)
    requires
        v.wf(),
        from != to,
    ensures
        ({
            let (after, r) = v.moved(from, to, reply);
            let ino = v.paths.inodes[from];
            &&& succeeds(reply) <==> r is Ok
            &&& r is Err ==> after == v
            &&& answered_bare(reply) matches Err(e) ==> ({
                &&& r matches Err(number)
                &&& number == 16 <==> e is Busy
                &&& number == 17 <==> e == IpcErrorView::ServerError("path_exists"@) || e
                    == IpcErrorView::ServerError("new_path_exists"@)
            })
            &&& !v.paths.inodes.contains_key(from) ==> after == v
            &&& r is Ok && v.paths.inodes.contains_key(from) ==> {
                &&& after.paths.inodes.contains_key(to) && after.paths.inodes[to] == ino
                &&& after.paths.paths.contains_key(ino) && after.paths.paths[ino] == to
                &&& !after.paths.inodes.contains_key(from)
                &&& forall|p: Seq<char>|
                    p != from && p != to ==> (#[trigger] after.paths.inodes.contains_key(p)
                        <==> v.paths.inodes.contains_key(p)) && after.paths.inodes[p]
                        == v.paths.inodes[p]
                &&& forall|i: u64|
                    i != ino && !(v.paths.inodes.contains_key(to) && i == v.paths.inodes[to])
                        ==> (#[trigger] after.paths.paths.contains_key(i)
                        <==> v.paths.paths.contains_key(i)) && after.paths.paths[i]
                        == v.paths.paths[i]
                &&& v.paths.inodes.contains_key(to) ==> !after.paths.paths.contains_key(
                    v.paths.inodes[to],
                )
                &&& after.paths.next == v.paths.next
                &&& after.attrs == v.attrs
                &&& files_kept(v, after)
            }
        }),
{
    if let Err(e) = answered_bare(reply) {
        error_numbers_have_their_reasons(e);
    }
}

/// Making a file asks for its path under an id of its own, whose number is then
/// used up; nothing else changes. The file that the daemon made has the path
/// that was asked for, and the cache path and the id that the daemon says.
pub proof fn create_asks_for_its_path(
    v: FsView,
    parent: u64,
    name: Seq<char>,
    pending: PendingCreate<Seq<char>>,
    m: Map<Seq<char>, JsonView>,
    cache_path: Seq<char>,
    id: Seq<char>,
)
    ensures
        ({
            let (after, r) = v.create(parent, Some(name));
            &&& r is Ok <==> v.paths.paths.contains_key(parent)
            &&& r is Err ==> after == v
            &&& r matches Ok(p) ==> {
                &&& v.child(parent, Some(name)) == Ok::<Seq<char>, i32>(p.path)
                &&& p.handle_id == seq!['c', 'r', 'e', 'a', 't', 'e', '-'] + decimal(
                    v.next_handle_id as nat,
                )
                &&& v.next_handle_id < u64::MAX ==> after.next_handle_id == v.next_handle_id + 1
                &&& names_kept(v, after)
                &&& after.handles == v.handles
                &&& after.next_fh == v.next_fh
            }
        }),
        v.create(parent, None) == (v, Err::<PendingCreate<Seq<char>>, i32>(22)),
        pending.request() == (Request::Create {
            handle_id: pending.handle_id,
            path: pending.path,
        }),
        m.contains_key("ok"@) && m["ok"@] == JsonView::Bool(true) && m.contains_key("cache_path"@)
            && m["cache_path"@] == JsonView::Str(cache_path) && m.contains_key("handle_id"@)
            && m["handle_id"@] == JsonView::Str(id) ==> pending.replied(Ok(JsonView::Object(m)))
            == Ok::<CreatedFile<Seq<char>>, i32>(
            CreatedFile { path: pending.path, handle_id: id, cache_path },
        ),
{
    reveal_strlit("create-");
    assert("create-"@ =~= seq!['c', 'r', 'e', 'a', 't', 'e', '-']);
}

/// A file that was made has an inode, and is known and shown as an empty regular
/// file of the time of the clock, whose content lies in the cache. It is open
/// under the next file handle, with its id, path and cache file as the daemon
/// has them, and dirty. Where its cache file could not be had, nothing changes.
pub proof fn created_file_is_open_and_dirty(
    v: FsView,
    file: CreatedFile<Seq<char>>,
    now: u128,
    owner: Owner,
)
    requires
        v.wf(),
        v.paths.next < u64::MAX,
        now <= i64::MAX,
    ensures
        v.created(file, false, Some(now), owner).0 == v,
        v.created(file, false, Some(now), owner).1 matches Err(e) && e == 5,
        ({
            let (after, r) = v.created(file, true, Some(now), owner);
            &&& r matches Ok((fh, a, ino))
            &&& fh == v.next_fh
            &&& a.ino == ino
            &&& entry_added(
                v,
                after,
                file.path,
                ino,
                CachedAttr { size: 0, mtime_ms: now as i64, is_folder: false, is_hydrated: true },
            )
            &&& says(a, ino, 0, false, now as i64, owner)
            &&& after.handles.contains_key(fh)
            &&& after.handles[fh].dirty
            &&& after.handles[fh].handle_id == file.handle_id
            &&& after.handles[fh].remote_path == file.path
            &&& after.handles[fh].cache_path == file.cache_path
            &&& others_kept(v, after, fh)
            &&& v.next_fh < u64::MAX ==> after.next_fh == v.next_fh + 1
            &&& after.next_handle_id == v.next_handle_id
            &&& after.cache_root == v.cache_root
        }),
{
}

/// A node is made exactly where its mode has the type bits of a regular file, or
/// none.
pub proof fn only_regular_nodes_are_made(mode: u32)
    ensures
        regular_mode(mode) <==> (mode & 0o170000 == 0 || mode & 0o170000 == 0o100000),
{
}

/// A `setattr` of what has no path fails. Without a size there is nothing to
/// do. With an open file, that file is resized, as far as it is open. Without
/// one, a size of 0 asks the daemon for an empty file and registers no handle;
/// any other size asks for the content under an id of its own.
pub proof fn setattr_begins_by_what_is_given(v: FsView, inode: u64, fh: u64, size: u64)
    ensures
        !v.paths.paths.contains_key(inode) ==> v.setattr(inode, None, Some(size)) == (
            v,
            Setattr::<Seq<char>>::Failed(2),
        ) && v.setattr(inode, Some(fh), Some(size)) == (v, Setattr::<Seq<char>>::Failed(2))
            && v.setattr(inode, None, None) == (v, Setattr::<Seq<char>>::Failed(2)),
        v.paths.paths.contains_key(inode) ==> ({
            let path = v.paths.paths[inode];
            let id = seq!['t', 'r', 'u', 'n', 'c', 'N', '-'] + decimal(v.next_handle_id as nat);
            let (after, next) = v.setattr(inode, None, Some(size));
            &&& v.setattr(inode, None, None) == (v, Setattr::<Seq<char>>::Refresh)
            &&& v.setattr(inode, Some(fh), None) == (v, Setattr::<Seq<char>>::Refresh)
            &&& v.setattr(inode, Some(fh), Some(size)) == (
                v,
                if v.handles.contains_key(fh) {
                    Setattr::<Seq<char>>::ResizeHandle { fh, size }
                } else {
                    Setattr::<Seq<char>>::Failed(9)
                },
            )
            &&& names_kept(v, after)
            &&& after.handles == v.handles
            &&& after.next_fh == v.next_fh
            &&& size == 0 ==> after == v && next == (Setattr::Ask {
                request: Request::OpenWriteBegin { path, handle_id: None },
                waiting: Waiting::Emptying { path },
            })
            &&& size > 0 ==> next == (Setattr::Ask {
                request: Request::OpenRead { handle_id: id, path },
                waiting: Waiting::Fetching { path, handle_id: id, size },
            })
            &&& size > 0 && v.next_handle_id < u64::MAX ==> after.next_handle_id
                == v.next_handle_id + 1
        }),
{
    reveal_strlit("truncN-");
    assert("truncN-"@ =~= seq!['t', 'r', 'u', 'n', 'c', 'N', '-']);
}

/// Once the daemon made an empty file, it is told of it under an id of its own.
/// Once it fetched the content, the cache file is resized to the size that was
/// asked for; once that is done, the daemon is told of it, and if it is not,
/// nothing is told. Whether the daemon took what it was told or not, the id is
/// closed, and that outcome is kept.
pub proof fn setattr_goes_on_by_what_came(
    v: FsView,
    inode: u64,
    path: Seq<char>,
    id: Seq<char>,
    size: u64,
    reply: Result<JsonView, IpcErrorView>,
    cache_path: Seq<char>,
)
    ensures
        ({
            let own = seq!['t', 'r', 'u', 'n', 'c', '0', '-'] + decimal(v.next_handle_id as nat);
            let emptied = v.setattr_replied(inode, Waiting::Emptying { path }, reply);
            let fetched = v.setattr_replied(
                inode,
                Waiting::Fetching { path, handle_id: id, size },
                reply,
            );
            let told = v.setattr_replied(inode, Waiting::Uploading { handle_id: id, size }, reply);
            &&& carries_path(reply, cache_path) ==> emptied.1 == (Setattr::Ask {
                request: Request::OpenWrite { handle_id: own, path, cache_path },
                waiting: Waiting::Uploading { handle_id: own, size: 0 },
            })
            &&& carries_path(reply, cache_path) && v.next_handle_id < u64::MAX
                ==> emptied.0.next_handle_id == v.next_handle_id + 1
            &&& names_kept(v, emptied.0) && emptied.0.handles == v.handles && emptied.0.next_fh
                == v.next_fh
            &&& answered_path(reply) matches Err(e) ==> ({
                &&& emptied.0 == v
                &&& emptied.1 matches Setattr::Failed(number)
                &&& number == 16 <==> e is Busy
                &&& number == 21 <==> e == IpcErrorView::ServerError("path_is_folder"@)
                &&& number == 2 <==> e == IpcErrorView::ServerError("parent_not_found"@) || e
                    == IpcErrorView::ServerError("unknown_path"@) || e
                    == IpcErrorView::ServerError("old_path_not_found"@) || e
                    == IpcErrorView::ServerError("new_parent_not_found"@)
            })
            &&& carries_path(reply, cache_path) ==> fetched == (
                v,
                Setattr::ResizeCache { path, handle_id: id, cache_path, size },
            )
            &&& answered_path(reply) matches Err(e) ==> fetched == (
                v,
                Setattr::<Seq<char>>::Failed(
                    if e is Busy {
                        16
                    } else {
                        5
                    },
                ),
            )
            &&& carries_path(reply, cache_path) ==> told == (
                v,
                Setattr::Ask {
                    request: Request::CloseHandle { handle_id: id },
                    waiting: Waiting::Closing { size, outcome: Ok(()) },
                },
            )
            &&& answered_path(reply) matches Err(e) ==> told == (
                v,
                Setattr::Ask {
                    request: Request::CloseHandle { handle_id: id },
                    waiting: Waiting::Closing {
                        size,
                        outcome: Err(
                            if e is Busy {
                                16
                            } else {
                                5
                            },
                        ),
                    },
                },
            )
        }),
        FsView::cache_resized(path, id, cache_path, size, true) == (Setattr::Ask {
            request: Request::OpenWrite { handle_id: id, path, cache_path },
            waiting: Waiting::Uploading { handle_id: id, size },
        }),
        FsView::cache_resized(path, id, cache_path, size, false) == (Setattr::Ask {
            request: Request::CloseHandle { handle_id: id },
            waiting: Waiting::Closing { size, outcome: Err(5) },
        }),
{
    if let Err(e) = answered_path(reply) {
        error_numbers_have_their_reasons(e);
    }
    reveal_strlit("trunc0-");
    assert("trunc0-"@ =~= seq!['t', 'r', 'u', 'n', 'c', '0', '-']);
}

/// The path is listed.
pub open spec fn lists(entries: Seq<ListEntryView>, path: Seq<char>) -> bool {
    exists|i: int| 0 <= i < entries.len() && (#[trigger] entries[i]).path == path
}

/// A listing gives an inode to each path that it lists and that has none, the
/// next ones. It takes none away, and gives none to any other path. What is
/// known of an inode whose path is not listed stays. The open files stay.
pub proof fn listing_adds_only_what_it_lists(v: FsView, entries: Seq<ListEntryView>)
    requires
        v.wf(),
        v.fits(entries.len()),
    ensures
        ({
            let after = v.populated(entries);
            &&& forall|p: Seq<char>| #[trigger]
                after.paths.inodes.contains_key(p) <==> v.paths.inodes.contains_key(p) || lists(
                    entries,
                    p,
                )
            &&& forall|p: Seq<char>| #[trigger]
                v.paths.inodes.contains_key(p) ==> after.paths.inodes[p] == v.paths.inodes[p]
            &&& forall|p: Seq<char>|
                #![trigger after.paths.inodes[p]]
                lists(entries, p) && !v.paths.inodes.contains_key(p) ==> v.paths.next
                    <= after.paths.inodes[p] < after.paths.next
            &&& after.wf() && v.paths.next <= after.paths.next
            &&& forall|i: u64| #[trigger]
                after.attrs.contains_key(i) <==> v.attrs.contains_key(i) || after.paths.paths.contains_key(
                    i,
                ) && lists(entries, after.paths.paths[i])
            &&& forall|i: u64|
                #![trigger after.attrs[i]]
                !(after.paths.paths.contains_key(i) && lists(entries, after.paths.paths[i]))
                    ==> after.attrs[i] == v.attrs[i]
            &&& files_kept(v, after)
        }),
    decreases entries.len(),
{
    let after = v.populated(entries);
    lemma_populated(v, entries);
    if entries.len() > 0 {
        let rest = entries.drop_last();
        let before = v.populated(rest);
        listing_adds_only_what_it_lists(v, rest);
        lemma_populated(v, rest);
        assert(entries[entries.len() - 1] == entries.last());
        assert forall|p: Seq<char>| #[trigger] lists(entries, p) <==> lists(rest, p) || p
            == entries.last().path by {
            if lists(rest, p) {
                let i = choose|i: int| 0 <= i < rest.len() && (#[trigger] rest[i]).path == p;
                assert(entries[i] == rest[i]);
            }
            if lists(entries, p) {
                let i = choose|i: int| 0 <= i < entries.len() && (#[trigger] entries[i]).path == p;
                if i < rest.len() {
                    assert(rest[i] == entries[i]);
                }
            }
        }
        let ino = before.paths.inode_of(entries.last().path);
        assert(after.paths.inodes.contains_key(entries.last().path));
        assert(after.paths.inodes[entries.last().path] == ino);
        assert(after.paths.paths[ino] == entries.last().path);
        assert(lists(entries, entries.last().path));
        assert forall|i: u64| i != ino implies after.paths.paths.contains_key(i)
            == before.paths.paths.contains_key(i) && after.paths.paths[i] == before.paths.paths[i]
            && (after.paths.paths.contains_key(i) ==> lists(entries, after.paths.paths[i])
            == lists(rest, before.paths.paths[i])) && after.attrs.contains_key(i)
            == before.attrs.contains_key(i) && #[trigger] after.attrs[i] == before.attrs[i] by {
            if after.paths.paths.contains_key(i) {
                assert(after.paths.inodes[after.paths.paths[i]] == i);
                assert(lists(entries, after.paths.paths[i]) <==> lists(
                    rest,
                    after.paths.paths[i],
                ) || after.paths.paths[i] == entries.last().path);
            }
        }
        assert forall|i: u64| #[trigger] after.attrs.contains_key(i) <==> v.attrs.contains_key(i)
            || after.paths.paths.contains_key(i) && lists(entries, after.paths.paths[i]) by {
            if i != ino {
                assert(after.attrs[i] == before.attrs[i]);
            }
        }
    }
}

/// What is known of a listed path afterwards is what the last entry of that path
/// says: its size, its time, its kind, and whether its content lies in the
/// cache.
pub proof fn listing_is_remembered_field_by_field(
    v: FsView,
    entries: Seq<ListEntryView>,
    i: int,
)
    requires
        v.wf(),
        v.fits(entries.len()),
        0 <= i < entries.len(),
        forall|j: int| i < j < entries.len() ==> (#[trigger] entries[j]).path != entries[i].path,
    ensures
        ({
            let after = v.populated(entries);
            let ino = after.paths.inodes[entries[i].path];
            &&& after.paths.inodes.contains_key(entries[i].path)
            &&& after.attrs.contains_key(ino)
            &&& after.attrs[ino].size == entries[i].size
            &&& after.attrs[ino].mtime_ms == entries[i].mtime_ms
            &&& after.attrs[ino].is_folder == entries[i].folder
            &&& after.attrs[ino].is_hydrated == entries[i].hydrated
        }),
{
    lemma_populated(v, entries);
    listed_attrs_are_remembered(v, entries, i);
}

/// The attributes that are shown are of the inode, and say the size, the kind
/// with its rights, and the time.
pub open spec fn says(
    a: FileAttr,
    ino: u64,
    size: u64,
    folder: bool,
    mtime_ms: i64,
    owner: Owner,
) -> bool {
    &&& a.ino == ino
    &&& a.size == size
    &&& size <= a.blocks * 512 < size + 512
    &&& a.kind == if folder {
        FileType::Directory
    } else {
        FileType::RegularFile
    }
    &&& a.perm == if folder {
        0o755u16
    } else {
        0o644u16
    }
    &&& a.nlink == if folder {
        2u32
    } else {
        1u32
    }
    &&& mtime_ms >= 0 ==> a.secs * 1000 + a.nsec / 1_000_000 == mtime_ms
    &&& a.uid == owner.uid
    &&& a.gid == owner.gid
}

/// A lookup is refused where the name is no text, or where the directory has no
/// path. The path that is looked up is that of the directory, a slash and the
/// name. Where it has an inode of which something is known, that is the answer;
/// else the directory is listed.
pub proof fn lookup_answers_with_what_is_known(
    v: FsView,
    parent: u64,
    name: Seq<char>,
    owner: Owner,
)
    ensures
        v.lookup(parent, None, owner) == Lookup::<Seq<char>>::Done(Err(22)),
        !v.paths.paths.contains_key(parent) ==> v.lookup(parent, Some(name), owner) == Lookup::<
            Seq<char>,
        >::Done(Err(2)),
        v.paths.paths.contains_key(parent) ==> ({
            let dir = v.paths.paths[parent];
            let path = dir + seq!['/'] + name;
            let ino = v.paths.inodes[path];
            let c = v.attrs[ino];
            if v.paths.inodes.contains_key(path) && v.attrs.contains_key(ino) {
                v.lookup(parent, Some(name), owner) matches Lookup::Done(Ok(a)) && says(
                    a,
                    ino,
                    c.size,
                    c.is_folder,
                    c.mtime_ms,
                    owner,
                )
            } else {
                v.lookup(parent, Some(name), owner) == Lookup::List {
                    parent_path: dir,
                    child_path: path,
                }
            }
        }),
{
    reveal_strlit("/");
    assert("/"@ =~= seq!['/']);
}

proof fn lemma_find_entry(entries: Seq<ListEntryView>, path: Seq<char>, i: int)
    requires
        0 <= i <= entries.len(),
        forall|j: int| 0 <= j < i ==> (#[trigger] entries[j]).path != path,
        i < entries.len() ==> entries[i].path == path,
    ensures
        find_entry(entries, path) == if i < entries.len() {
            Some(entries[i])
        } else {
            None
        },
    decreases entries.len(),
{
    if entries.len() > 0 && i > 0 {
        let rest = entries.drop_first();
        assert(entries[0].path != path);
        assert forall|j: int| 0 <= j < i - 1 implies (#[trigger] rest[j]).path != path by {
            assert(rest[j] == entries[j + 1]);
        }
        lemma_find_entry(rest, path, i - 1);
    }
}

/// A lookup for which the directory was listed answers with the inode of the
/// path that was looked up, and with what the first entry of this path says. It
/// answers that there is nothing exactly if no entry has the path. A directory
/// that could not be listed is an error, and changes nothing.
pub proof fn lookup_answers_with_the_entry_of_its_path(
    v: FsView,
    path: Seq<char>,
    entries: Seq<ListEntryView>,
    i: int,
    e: IpcErrorView,
    owner: Owner,
)
    requires
        v.wf(),
        v.fits(entries.len()),
        0 <= i <= entries.len(),
        forall|j: int| 0 <= j < i ==> (#[trigger] entries[j]).path != path,
        i < entries.len() ==> entries[i].path == path,
    ensures
        ({
            let after = v.after_listing(Ok(entries));
            let r = v.lookup_listed(path, Ok(entries), owner);
            &&& i < entries.len() ==> ({
                &&& r matches Ok(a)
                &&& after.paths.inodes.contains_key(path)
                &&& says(
                    a,
                    after.paths.inodes[path],
                    entries[i].size,
                    entries[i].folder,
                    entries[i].mtime_ms,
                    owner,
                )
            })
            &&& i == entries.len() ==> r == Err::<FileAttr, i32>(2)
        }),
        v.after_listing(Err(e)) == v,
        v.lookup_listed(path, Err(e), owner) == Err::<FileAttr, i32>(
            if e is Busy {
                16
            } else {
                5
            },
        ),
{
    lemma_find_entry(entries, path, i);
    lemma_populated(v, entries);
    if i < entries.len() {
        entry_is_shown_as_it_is(
            v.populated(entries).paths.inodes[path],
            attr_of(entries[i]),
            owner,
        );
    }
}

/// The root is shown as a directory of size 0, and another inode of which
/// something is known as that, without asking. Of an inode of which nothing is
/// known the directory is listed that stands before the last slash of its path;
/// an inode without a path does not exist.
pub proof fn getattr_answers_with_what_is_known(
    v: FsView,
    inode: u64,
    dir: Seq<char>,
    name: Seq<char>,
    owner: Owner,
)
    requires
        !name.contains('/'),
    ensures
        v.getattr(1, owner) matches Fetch::Done(Ok(a)) && says(a, 1, 0, true, 0, owner),
        inode != 1 && v.attrs.contains_key(inode) ==> (v.getattr(inode, owner) matches Fetch::Done(
            Ok(a),
        ) && says(
            a,
            inode,
            v.attrs[inode].size,
            v.attrs[inode].is_folder,
            v.attrs[inode].mtime_ms,
            owner,
        )),
        inode != 1 && !v.attrs.contains_key(inode) && !v.paths.paths.contains_key(inode)
            ==> v.getattr(inode, owner) == Fetch::<FileAttr, Seq<char>>::Done(Err(2)),
        inode != 1 && !v.attrs.contains_key(inode) && v.paths.paths.contains_key(inode)
            && v.paths.paths[inode] == dir + seq!['/'] + name ==> v.getattr(inode, owner) == (
        Fetch::<FileAttr, Seq<char>>::List { prefix: dir }),
{
    entry_is_shown_as_it_is(1, root_attr(), owner);
    entry_path_splits(dir, name);
    reveal_strlit("/");
    assert("/"@ =~= seq!['/']);
}

/// An inode for which its directory was listed is shown as the last entry of its
/// path says; where there is none, and nothing is known of it, it does not
/// exist. A directory that could not be listed is an error.
pub proof fn getattr_answers_with_the_entry_of_its_path(
    v: FsView,
    inode: u64,
    entries: Seq<ListEntryView>,
    i: int,
    e: IpcErrorView,
    owner: Owner,
)
    requires
        v.wf(),
        v.fits(entries.len()),
        v.paths.paths.contains_key(inode),
        -1 <= i < entries.len(),
        i >= 0 ==> entries[i].path == v.paths.paths[inode],
        forall|j: int|
            i < j < entries.len() ==> (#[trigger] entries[j]).path != v.paths.paths[inode],
    ensures
        i >= 0 ==> (v.getattr_listed(inode, Ok(entries), owner) matches Ok(a) && says(
            a,
            inode,
            entries[i].size,
            entries[i].folder,
            entries[i].mtime_ms,
            owner,
        )),
        i < 0 && !v.attrs.contains_key(inode) ==> v.getattr_listed(inode, Ok(entries), owner)
            == Err::<FileAttr, i32>(2),
        v.getattr_listed(inode, Err(e), owner) == Err::<FileAttr, i32>(
            if e is Busy {
                16
            } else {
                5
            },
        ),
{
    let after = v.populated(entries);
    lemma_populated(v, entries);
    assert(v.paths.inodes.contains_key(v.paths.paths[inode]));
    if i >= 0 {
        listing_is_remembered_field_by_field(v, entries, i);
        entry_is_shown_as_it_is(inode, after.attrs[inode], owner);
    } else {
        listing_adds_only_what_it_lists(v, entries);
        assert(after.paths.paths.contains_key(inode) && after.paths.paths[inode]
            == v.paths.paths[inode]);
    }
}

/// The name of a directory entry can be shown exactly if it has at most 255
/// bytes.
pub proof fn long_names_are_not_shown(dir: Seq<char>, name: Seq<char>)
    requires
        !name.contains('/'),
    ensures
        representable(dir + seq!['/'] + name) <==> encode_utf8(name).len() <= 255,
{
    entry_path_splits(dir, name);
    reveal_strlit("/");
    assert("/"@ =~= seq!['/']);
}

/// Reading a directory whose listing came shows itself and its parent, and then
/// the listed entries whose names are not too long, in their order; the `i`-th
/// of these, which is the entry `name` of the directory `dir`, stands in row
/// `i + 2`, by that name, under the inode of its path, and says what its entry
/// says. Each row says where reading goes on after it, and reading from there on
/// shows the rows that follow.
pub proof fn reading_shows_entries_by_name(
    v: FsView,
    parent: u64,
    entries: Seq<ListEntryView>,
    own: CachedAttr,
    owner: Owner,
    i: int,
    dir: Seq<char>,
    name: Seq<char>,
)
    requires
        v.wf(),
        v.fits(entries.len()),
        !name.contains('/'),
        ({
            let visible = entries.filter(|e: ListEntryView| representable(e.path));
            0 <= i < visible.len() && visible[i].path == dir + seq!['/'] + name
        }),
    ensures
        ({
            let after = v.after_listing(Ok(entries));
            let visible = entries.filter(|e: ListEntryView| representable(e.path));
            let e = visible[i];
            let rows = directory_plus(parent, own, numbered(after.paths, entries), owner);
            let plain = v.readdir_listed(parent, 0, Ok(entries));
            let r = rows[i + 2];
            &&& rows.len() == visible.len() + 2
            &&& rows[0].entry.name == seq!['.'] && rows[0].entry.inode == parent
            &&& rows[1].entry.name == seq!['.', '.'] && rows[1].entry.inode == parent
            &&& rows[0].entry.kind is Directory && rows[1].entry.kind is Directory
            &&& says(rows[0].attr, parent, own.size, own.is_folder, own.mtime_ms, owner)
            &&& says(rows[1].attr, parent, own.size, own.is_folder, own.mtime_ms, owner)
            &&& r.entry.name == name
            &&& r.entry.kind is Directory <==> e.folder
            &&& after.paths.inodes.contains_key(e.path)
            &&& r.entry.inode == after.paths.inodes[e.path]
            &&& says(r.attr, r.entry.inode, e.size, e.folder, e.mtime_ms, owner)
            &&& forall|k: int| 0 <= k < rows.len() ==> (#[trigger] rows[k]).entry.offset == k + 1
            &&& plain matches Ok(shown_rows) && shown_rows == rows.map_values(
                |x: DirectoryEntryPlus<Seq<char>>| x.entry,
            )
            &&& forall|k: i64|
                #![trigger v.readdir_listed(parent, k, Ok(entries))]
                0 <= k <= rows.len() ==> v.readdir_listed(parent, k, Ok(entries)) == Ok::<
                    Seq<DirectoryEntry<Seq<char>>>,
                    i32,
                >(plain->Ok_0.skip(k as int))
            &&& forall|k: i64|
                #![trigger v.readdir_listed(parent, k, Ok(entries))]
                k < 0 ==> v.readdir_listed(parent, k, Ok(entries)) == plain
            &&& forall|k: i64|
                #![trigger v.readdir_listed(parent, k, Ok(entries))]
                k > rows.len() ==> v.readdir_listed(parent, k, Ok(entries)) == Ok::<
                    Seq<DirectoryEntry<Seq<char>>>,
                    i32,
                >(Seq::empty())
            &&& forall|k: int|
                #![trigger from_offset(rows, k)]
                0 <= k <= rows.len() ==> from_offset(rows, k) == rows.skip(k)
        }),
{
    let after = v.after_listing(Ok(entries));
    let visible = entries.filter(|e: ListEntryView| representable(e.path));
    let listed = numbered(after.paths, entries);
    let rows = directory_plus(parent, own, listed, owner);
    directory_shows_what_is_listed(v, parent, entries, own, owner, 0);
    entry_path_splits(dir, name);
    reveal_strlit("/");
    assert("/"@ =~= seq!['/']);
    reveal_strlit(".");
    assert("."@ =~= seq!['.']);
    reveal_strlit("..");
    assert(".."@ =~= seq!['.', '.']);
    entry_is_shown_as_it_is(parent, own, owner);
    entry_is_shown_as_it_is(rows[i + 2].entry.inode, attr_of(visible[i]), owner);
    let plain = directory(parent, listed);
    assert(visible[i] == visible[i]);
    assert forall|k: int| 0 <= k < rows.len() implies (#[trigger] rows[k]).entry.offset == k + 1 by {
        if k >= 2 {
            assert(visible[k - 2] == visible[k - 2]);
            assert(rows[(k - 2) + 2] == rows[k]);
        }
    }
    assert(plain.skip(0) =~= plain);
    assert(rows.skip(0) =~= rows);
    assert(plain.skip(plain.len() as int) =~= Seq::empty());
    assert(rows.skip(rows.len() as int) =~= Seq::empty());
}

/// Only whether a file's content lies in the cache can be asked as an extended
/// attribute: the answer is the text `1` or `0`, or its length where there is no
/// room for it.
pub proof fn hydration_can_be_asked(v: FsView, inode: u64, name: Option<Seq<char>>, size: u32)
    requires
        inode != 1,
        v.attrs.contains_key(inode),
    ensures
        name != Some("user.unidrive.hydrated"@) ==> v.getxattr(inode, name, size) == Fetch::<
            XAttr<Seq<u8>>,
            Seq<char>,
        >::Done(Err(61)),
        v.getxattr(inode, Some("user.unidrive.hydrated"@), 0) == Fetch::<
            XAttr<Seq<u8>>,
            Seq<char>,
        >::Done(Ok(XAttr::Size(1))),
        size > 0 ==> v.getxattr(inode, Some("user.unidrive.hydrated"@), size) == Fetch::<
            XAttr<Seq<u8>>,
            Seq<char>,
        >::Done(
            Ok(
                XAttr::Data(
                    if v.attrs[inode].is_hydrated {
                        seq![49u8]
                    } else {
                        seq![48u8]
                    },
                ),
            ),
        ),
{
}

/// An extended attribute is answered whole where there is room for it, by its
/// length where none is given, and not at all where there is too little.
pub proof fn attributes_are_answered_whole(bytes: Seq<u8>, size: u32)
    requires
        bytes.len() <= u32::MAX,
    ensures
        match sized(bytes, size) {
            Ok(XAttr::Size(n)) => size == 0 && n == bytes.len(),
            Ok(XAttr::Data(data)) => size > 0 && size >= bytes.len() && data == bytes,
            Err(e) => 0 < size < bytes.len() && e == 34,
        },
        xattr_names() == encode_utf8("user.unidrive.hydrated"@) + seq![0u8],
{
    assert(xattr_names() =~= encode_utf8("user.unidrive.hydrated"@) + seq![0u8]);
}

/// A directory that could not be listed is an error of reading it.
pub proof fn unlisted_directories_are_errors(v: FsView, parent: u64, k: i64, e: IpcErrorView)
    ensures
        v.readdir_listed(parent, k, Err(e)) == Err::<Seq<DirectoryEntry<Seq<char>>>, i32>(
            if e is Busy {
                16
            } else {
                5
            },
        ),
{
}

/// Of an inode of which nothing is known, whether its content lies in the cache
/// is asked as its attributes are, by listing its directory; the answer is then
/// what the listing says.
pub proof fn hydration_is_listed_where_it_is_not_known(
    v: FsView,
    inode: u64,
    size: u32,
    owner: Owner,
    entries: Seq<ListEntryView>,
    i: int,
)
    requires
        v.wf(),
        v.fits(entries.len()),
        inode != 1,
        size > 0,
        v.paths.paths.contains_key(inode),
        0 <= i < entries.len(),
        entries[i].path == v.paths.paths[inode],
        forall|j: int|
            i < j < entries.len() ==> (#[trigger] entries[j]).path != v.paths.paths[inode],
    ensures
        !v.attrs.contains_key(inode) ==> ({
            &&& v.getattr(inode, owner) matches Fetch::List { prefix }
            &&& v.getxattr(inode, Some("user.unidrive.hydrated"@), size) == (Fetch::<
                XAttr<Seq<u8>>,
                Seq<char>,
            >::List { prefix })
        }),
        v.getxattr_listed(inode, size, Ok(entries)) == Ok::<XAttr<Seq<u8>>, i32>(
            XAttr::Data(
                if entries[i].hydrated {
                    seq![49u8]
                } else {
                    seq![48u8]
                },
            ),
        ),
{
    lemma_populated(v, entries);
    assert(v.paths.inodes.contains_key(v.paths.paths[inode]));
    listing_is_remembered_field_by_field(v, entries, i);
}

/// There is room for more paths as long as the inodes last, up to as many as a
/// directory can have rows.
pub proof fn room_is_what_the_inodes_leave(v: FsView, n: nat)
    ensures
        v.fits(n) <==> n <= 0xffff_ffff_ffff_ffff - v.paths.next && n <= 0x7fff_ffff_ffff_fffc,
{
}

/// Reading a directory, with attributes or without, lists that directory; one
/// without a path does not exist.
pub proof fn reading_lists_its_directory(
    fs: UnidriveFs,
    parent: u64,
    r: Result<String, i32>,
    plus: Result<String, i32>,
)
    requires
        call_ensures(UnidriveFs::readdir, (&fs, parent), r),
        call_ensures(UnidriveFs::readdirplus, (&fs, parent), plus),
    ensures
        r is Ok <==> fs@.paths.paths.contains_key(parent),
        r matches Ok(prefix) ==> prefix@ == fs@.paths.paths[parent],
        r matches Err(e) ==> e == 2,
        plus is Ok <==> r is Ok,
        plus matches Ok(prefix) ==> prefix@ == fs@.paths.paths[parent],
        plus matches Err(e) ==> e == 2,
{
}

/// Making a directory, removing a file and removing a directory each ask the
/// daemon for that, and for the path that is the directory's, a slash and the
/// name. The path that they hand out with the request is the one in it.
pub proof fn changes_of_names_ask_for_their_path(
    fs: UnidriveFs,
    parent: u64,
    name: &str,
    made: Result<(String, Request<String>), i32>,
    unlinked: Result<(String, Request<String>), i32>,
    removed: Result<(String, Request<String>), i32>,
)
    requires
        call_ensures(UnidriveFs::mkdir, (&fs, parent, Some(name)), made),
        call_ensures(UnidriveFs::unlink, (&fs, parent, Some(name)), unlinked),
        call_ensures(UnidriveFs::rmdir, (&fs, parent, Some(name)), removed),
        fs@.paths.paths.contains_key(parent),
        fs@.paths.paths[parent].len() > 0 ==> fs@.paths.paths[parent].last() != '/',
    ensures
        ({
            let path = fs@.paths.paths[parent] + seq!['/'] + name@;
            &&& made matches Ok((p, request)) && p@ == path && request@ == (Request::Mkdir { path })
            &&& unlinked matches Ok((p, request)) && p@ == path && request@ == (Request::Unlink {
                path,
            })
            &&& removed matches Ok((p, request)) && p@ == path && request@ == (Request::Rmdir {
                path,
            })
        }),
{
    entry_of_a_directory(fs@, parent, name@);
}

/// A change of a name that is no text, or in a directory without a path, is
/// refused before anything is asked.
pub proof fn changes_of_no_name_are_refused(
    fs: UnidriveFs,
    parent: u64,
    name: Option<&str>,
    made: Result<(String, Request<String>), i32>,
    unlinked: Result<(String, Request<String>), i32>,
    removed: Result<(String, Request<String>), i32>,
)
    requires
        call_ensures(UnidriveFs::mkdir, (&fs, parent, name), made),
        call_ensures(UnidriveFs::unlink, (&fs, parent, name), unlinked),
        call_ensures(UnidriveFs::rmdir, (&fs, parent, name), removed),
        name is None || !fs@.paths.paths.contains_key(parent),
    ensures
        ({
            let number: i32 = if name is None {
                22
            } else {
                2
            };
            &&& made matches Err(e) && e == number
            &&& unlinked matches Err(e) && e == number
            &&& removed matches Err(e) && e == number
        }),
{
}

/// A rename asks the daemon to move the path of the old name to that of the new
/// one, each the path of its directory, a slash and the name.
pub proof fn renames_ask_for_both_paths(
    fs: UnidriveFs,
    old_parent: u64,
    old_name: &str,
    new_parent: u64,
    new_name: &str,
    r: Result<(String, String, Request<String>), i32>,
)
    requires
        call_ensures(
            UnidriveFs::rename,
            (&fs, old_parent, Some(old_name), new_parent, Some(new_name)),
            r,
        ),
        fs@.paths.paths.contains_key(old_parent),
        fs@.paths.paths[old_parent].len() > 0 ==> fs@.paths.paths[old_parent].last() != '/',
        fs@.paths.paths.contains_key(new_parent),
        fs@.paths.paths[new_parent].len() > 0 ==> fs@.paths.paths[new_parent].last() != '/',
    ensures
        ({
            let from = fs@.paths.paths[old_parent] + seq!['/'] + old_name@;
            let to = fs@.paths.paths[new_parent] + seq!['/'] + new_name@;
            &&& r matches Ok((f, t, request))
            &&& f@ == from
            &&& t@ == to
            &&& request@ == (Request::Rename { old_path: from, new_path: to })
        }),
{
    entry_of_a_directory(fs@, old_parent, old_name@);
    entry_of_a_directory(fs@, new_parent, new_name@);
}

/// A file handle can be used exactly while its file is open, and only regular
/// nodes are begun to be made.
pub proof fn only_open_files_are_used(
    fs: UnidriveFs,
    fh: u64,
    mode: u32,
    used: Result<(), i32>,
    made: Result<(), i32>,
)
    requires
        call_ensures(UnidriveFs::check_handle, (&fs, fh), used),
        call_ensures(UnidriveFs::mknod, (&fs, mode), made),
    ensures
        used is Ok <==> fs@.handles.contains_key(fh),
        used matches Err(e) ==> e == 9,
        made is Ok <==> mode & 0o170000 == 0 || mode & 0o170000 == 0o100000,
        made matches Err(e) ==> e == 1,
{
}

/// What the questions of the kernel that change nothing are answered is what the
/// state of the mount says.
pub proof fn questions_are_answered_by_the_state(
    fs: UnidriveFs,
    parent: u64,
    name: &str,
    inode: u64,
    owner: Owner,
    looked_up: Lookup<String>,
    attr: Fetch<FileAttr, String>,
    known: Fetch<CachedAttr, String>,
)
    requires
        call_ensures(UnidriveFs::lookup, (&fs, parent, Some(name), owner), looked_up),
        call_ensures(UnidriveFs::getattr, (&fs, inode, owner), attr),
        call_ensures(UnidriveFs::get_or_fetch_attr, (&fs, inode), known),
    ensures
        looked_up@ == fs@.lookup(parent, Some(name@), owner),
        attr@ == fs@.getattr(inode, owner),
        inode != 1 && fs@.attrs.contains_key(inode) ==> known@ == Fetch::<
            CachedAttr,
            Seq<char>,
        >::Done(Ok(fs@.attrs[inode])),
{
}

}
