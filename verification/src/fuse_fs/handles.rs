//! Open files: opening, reading, writing, syncing and releasing them.

use crate::fuse_fs::errno::{
    errno_of, ipc_error_to_errno, namespace_err_to_errno, namespace_errno_of, read_errno_of,
    read_error_to_errno, EBADF, EIO, EISDIR, ENOENT,
};
use crate::fuse_fs::{succ, FsView, OpenHandle, UnidriveFs};
use crate::ipc::{answered_path, path_answer, reply_view, IpcErrorView, Reply, Request};
use crate::json::JsonView;
use crate::text::{decimal, decimal_text, is_empty, join};
use vstd::prelude::*;

verus! {

broadcast use vstd::std_specs::hash::group_hash_axioms;

/// The access mode bits of the flags of an open.
pub const O_ACCMODE: u32 = 3;

/// Open for writing only.
pub const O_WRONLY: u32 = 1;

/// Open for reading and writing.
pub const O_RDWR: u32 = 2;

/// Empty the file on opening it.
pub const O_TRUNC: u32 = 512;

/// An open for which the daemon is asked.
#[derive(Debug)]
pub struct PendingOpen<S> {
    pub path: S,
    pub handle_id: S,
    pub writable: bool,
    pub truncating: bool,
}

impl View for PendingOpen<String> {
    type V = PendingOpen<Seq<char>>;

    open spec fn view(&self) -> PendingOpen<Seq<char>> {
        PendingOpen {
            path: self.path@,
            handle_id: self.handle_id@,
            writable: self.writable,
            truncating: self.truncating,
        }
    }
}

/// An open for which the cache file is opened, for reading and writing where
/// it is `writable`, else for reading.
#[derive(Debug)]
pub struct PendingFile<S> {
    pub open: PendingOpen<S>,
    pub cache_path: S,
}

impl View for PendingFile<String> {
    type V = PendingFile<Seq<char>>;

    open spec fn view(&self) -> PendingFile<Seq<char>> {
        PendingFile { open: self.open@, cache_path: self.cache_path@ }
    }
}

/// A sync that is answered, or that uploads first.
#[derive(Debug)]
pub enum Fsync<S> {
    Done(Result<(), i32>),
    Upload(Request<S>),
}

impl View for Fsync<String> {
    type V = Fsync<Seq<char>>;

    open spec fn view(&self) -> Fsync<Seq<char>> {
        match self {
            Fsync::Done(r) => Fsync::Done(*r),
            Fsync::Upload(req) => Fsync::Upload(req@),
        }
    }
}

/// An id for the daemon: a prefix and a number.
pub open spec fn handle_text(prefix: Seq<char>, n: u64) -> Seq<char> {
    prefix + decimal(n as nat)
}

/// The flags ask for writing.
pub open spec fn writable(flags: u32) -> bool {
    flags & O_ACCMODE == O_WRONLY || flags & O_ACCMODE == O_RDWR
}

/// The flags ask for writing into an emptied file.
pub open spec fn truncating(flags: u32) -> bool {
    writable(flags) && flags & O_TRUNC != 0
}

/// The requests of a list.
pub open spec fn request_views(requests: Seq<Request<String>>) -> Seq<Request<Seq<char>>> {
    requests.map_values(|r: Request<String>| r@)
}

impl OpenHandle<Seq<char>> {
    /// The request that tells the daemon of new content.
    pub open spec fn upload(self) -> Request<Seq<char>> {
        Request::OpenWrite {
            handle_id: self.handle_id,
            path: self.remote_path,
            cache_path: self.cache_path,
        }
    }

    /// The request that tells the daemon that the file is closed.
    pub open spec fn close(self) -> Request<Seq<char>> {
        Request::CloseHandle { handle_id: self.handle_id }
    }
}

impl PendingOpen<Seq<char>> {
    /// What the daemon is asked: an emptied file needs no content.
    pub open spec fn request(self) -> Request<Seq<char>> {
        if self.truncating {
            Request::OpenWriteBegin { path: self.path, handle_id: Some(self.handle_id) }
        } else {
            Request::OpenRead { handle_id: self.handle_id, path: self.path }
        }
    }

    /// How an open goes on once the daemon has answered.
    pub open spec fn replied(self, reply: Result<JsonView, IpcErrorView>) -> Result<
        PendingFile<Seq<char>>,
        i32,
    > {
        match answered_path(reply) {
            Ok(cache_path) => Ok(PendingFile { open: self, cache_path }),
            Err(e) => if self.truncating {
                Err(namespace_errno_of(e))
            } else {
                Err(read_errno_of(e))
            },
        }
    }
}

impl FsView {
    /// The same with one more id for the daemon given out.
    pub open spec fn id_taken(self) -> FsView {
        FsView { next_handle_id: succ(self.next_handle_id), ..self }
    }

    /// How an open begins.
    pub open spec fn open(self, inode: u64, flags: u32) -> (
        FsView,
        Result<PendingOpen<Seq<char>>, i32>,
    ) {
        match self.paths.path(inode) {
            None => (self, Err(ENOENT)),
            Some(path) => if path.len() == 0 {
                (self, Err(EISDIR))
            } else {
                (
                    self.id_taken(),
                    Ok(
                        PendingOpen {
                            path,
                            handle_id: handle_text(
                                if writable(flags) {
                                    "wh-"@
                                } else {
                                    "rh-"@
                                },
                                self.next_handle_id,
                            ),
                            writable: writable(flags),
                            truncating: truncating(flags),
                        },
                    ),
                )
            },
        }
    }

    /// The same with one more open file.
    pub open spec fn with_handle(self, h: OpenHandle<Seq<char>>) -> FsView {
        FsView {
            handles: self.handles.insert(self.next_fh, h),
            next_fh: succ(self.next_fh),
            ..self
        }
    }

    /// How an open ends. An emptied file is dirty from the start.
    pub open spec fn opened(self, file: PendingFile<Seq<char>>, ok: bool) -> (
        FsView,
        Result<u64, i32>,
    ) {
        if !ok {
            (self, Err(EIO))
        } else {
            (
                self.with_handle(
                    OpenHandle {
                        handle_id: file.open.handle_id,
                        remote_path: file.open.path,
                        cache_path: file.cache_path,
                        dirty: file.open.truncating,
                    },
                ),
                Ok(self.next_fh),
            )
        }
    }

    /// The same with the file handle's dirty mark set as given.
    pub open spec fn with_dirty(self, fh: u64, dirty: bool) -> FsView {
        FsView {
            handles: self.handles.insert(fh, OpenHandle { dirty, ..self.handles[fh] }),
            ..self
        }
    }

    /// How a write ends that wrote `n` bytes, or failed.
    pub open spec fn wrote(self, fh: u64, n: Option<usize>) -> (FsView, Result<u32, i32>) {
        if !self.handles.contains_key(fh) {
            (self, Err(EBADF))
        } else {
            match n {
                None => (self, Err(EIO)),
                Some(n) => (self.with_dirty(fh, true), Ok(n as u32)),
            }
        }
    }

    /// How a sync goes on once the cache file is on disk, or failed to be. The
    /// dirty mark is taken before the upload.
    pub open spec fn synced(self, fh: u64, ok: bool) -> (FsView, Fsync<Seq<char>>) {
        if !self.handles.contains_key(fh) {
            (self, Fsync::Done(Err(EBADF)))
        } else if !ok {
            (self, Fsync::Done(Err(EIO)))
        } else if !self.handles[fh].dirty {
            (self, Fsync::Done(Ok(())))
        } else {
            (self.with_dirty(fh, false), Fsync::Upload(self.handles[fh].upload()))
        }
    }

    /// How a sync ends once the daemon has answered. The dirty mark comes back
    /// where the upload failed, as far as the file is still open.
    pub open spec fn uploaded(self, fh: u64, reply: Result<JsonView, IpcErrorView>) -> (
        FsView,
        Result<(), i32>,
    ) {
        match answered_path(reply) {
            Ok(_) => (self, Ok(())),
            Err(e) => (
                if self.handles.contains_key(fh) {
                    self.with_dirty(fh, true)
                } else {
                    self
                },
                Err(errno_of(e)),
            ),
        }
    }

    /// The same without the file handle.
    pub open spec fn without_handle(self, fh: u64) -> FsView {
        FsView { handles: self.handles.remove(fh), ..self }
    }

    /// What the daemon is told when a file is released, in order: of its
    /// content where it is dirty, and that it is closed.
    pub open spec fn release_requests(self, fh: u64) -> Seq<Request<Seq<char>>> {
        if !self.handles.contains_key(fh) {
            Seq::empty()
        } else if self.handles[fh].dirty {
            seq![self.handles[fh].upload(), self.handles[fh].close()]
        } else {
            seq![self.handles[fh].close()]
        }
    }
}

fn handle_id_text(prefix: &str, n: u64) -> (r: String)
    ensures
        r@ == handle_text(prefix@, n),
{
    let number = decimal_text(n);
    join(prefix, number.as_str())
}

impl OpenHandle<String> {
    /// The request that tells the daemon of new content.
    pub fn upload_request(&self) -> (r: Request<String>)
        ensures
            r@ == self@.upload(),
    {
        Request::OpenWrite {
            handle_id: self.handle_id.clone(),
            path: self.remote_path.clone(),
            cache_path: self.cache_path.clone(),
        }
    }

    /// The request that tells the daemon that the file is closed.
    pub fn close_request(&self) -> (r: Request<String>)
        ensures
            r@ == self@.close(),
    {
        Request::CloseHandle { handle_id: self.handle_id.clone() }
    }
}

impl PendingOpen<String> {
    /// What the daemon is asked.
    pub fn request(&self) -> (r: Request<String>)
        ensures
            r@ == self@.request(),
    {
        if self.truncating {
            Request::OpenWriteBegin {
                path: self.path.clone(),
                handle_id: Some(self.handle_id.clone()),
            }
        } else {
            Request::OpenRead { handle_id: self.handle_id.clone(), path: self.path.clone() }
        }
    }

    /// Goes on with an open once the daemon has answered.
    pub fn replied(self, reply: Reply) -> (r: Result<PendingFile<String>, i32>)
        ensures
            match r {
                Ok(file) => self@.replied(reply_view(reply)) == Ok::<PendingFile<Seq<char>>, i32>(
                    file@,
                ),
                Err(e) => self@.replied(reply_view(reply)) == Err::<PendingFile<Seq<char>>, i32>(e),
            },
    {
        match path_answer(reply) {
            Ok(cache_path) => Ok(PendingFile { open: self, cache_path }),
            Err(e) => if self.truncating {
                Err(namespace_err_to_errno(&e))
            } else {
                Err(read_error_to_errno(&e))
            },
        }
    }
}

impl UnidriveFs {
    /// A fresh id for the daemon.
    pub(crate) fn take_handle_id(&mut self, prefix: &str) -> (r: String)
        ensures
            final(self)@ == old(self)@.id_taken(),
            r@ == handle_text(prefix@, old(self)@.next_handle_id),
    {
        let n: u64 = self.next_handle_id;
        self.next_handle_id = n.wrapping_add(1);
        assert(self@ =~= old(self)@.id_taken());
        handle_id_text(prefix, n)
    }

    /// Begins `open`: what the daemon is to be asked, or why not.
    pub fn open(&mut self, inode: u64, flags: u32) -> (r: Result<PendingOpen<String>, i32>)
        ensures
            final(self)@ == old(self)@.open(inode, flags).0,
            match r {
                Ok(pending) => old(self)@.open(inode, flags).1 == Ok::<PendingOpen<Seq<char>>, i32>(
                    pending@,
                ),
                Err(e) => old(self)@.open(inode, flags).1 == Err::<PendingOpen<Seq<char>>, i32>(e),
            },
    {
        let path = self.resolve(inode)?;
        if is_empty(path.as_str()) {
            return Err(EISDIR);
        }
        let acc: u32 = flags & O_ACCMODE;
        let writable = acc == O_WRONLY || acc == O_RDWR;
        let truncating = writable && flags & O_TRUNC != 0;
        let handle_id = if writable {
            self.take_handle_id("wh-")
        } else {
            self.take_handle_id("rh-")
        };
        Ok(PendingOpen { path, handle_id, writable, truncating })
    }

    pub(crate) fn add_handle(&mut self, h: OpenHandle<String>) -> (r: u64)
        ensures
            final(self)@ == old(self)@.with_handle(h@),
            r == old(self)@.next_fh,
    {
        let fh: u64 = self.next_fh;
        self.next_fh = fh.wrapping_add(1);
        self.open_handles.insert(fh, h);
        assert(self@ =~= old(self)@.with_handle(h@));
        fh
    }

    /// Ends `open` once the cache file was opened, or was not: the file handle.
    pub fn opened(&mut self, file: PendingFile<String>, ok: bool) -> (r: Result<u64, i32>)
        ensures
            (final(self)@, r) == old(self)@.opened(file@, ok),
    {
        if !ok {
            return Err(EIO);
        }
        Ok(
            self.add_handle(
                OpenHandle {
                    handle_id: file.open.handle_id,
                    remote_path: file.open.path,
                    cache_path: file.cache_path,
                    dirty: file.open.truncating,
                },
            ),
        )
    }

    /// Whether a file handle is open, as every use of one asks first.
    pub fn check_handle(&self, fh: u64) -> (r: Result<(), i32>)
        ensures
            r == if self@.handles.contains_key(fh) {
                Ok::<(), i32>(())
            } else {
                Err::<(), i32>(EBADF)
            },
    {
        match self.open_handles.get(&fh) {
            Some(_) => Ok(()),
            None => Err(EBADF),
        }
    }

    pub(crate) fn set_dirty(&mut self, fh: u64, dirty: bool)
        requires
            old(self)@.handles.contains_key(fh),
        ensures
            final(self)@ == old(self)@.with_dirty(fh, dirty),
    {
        if let Some(h) = self.open_handles.remove(&fh) {
            self.open_handles.insert(fh, OpenHandle { dirty, ..h });
        }
        assert(self@ =~= old(self)@.with_dirty(fh, dirty));
    }

    /// Ends `write`, which wrote `n` bytes or failed.
    pub fn wrote(&mut self, fh: u64, n: Option<usize>) -> (r: Result<u32, i32>)
        ensures
            (final(self)@, r) == old(self)@.wrote(fh, n),
    {
        self.check_handle(fh)?;
        match n {
            None => Err(EIO),
            Some(n) => {
                self.set_dirty(fh, true);
                Ok(n as u32)
            },
        }
    }

    /// Goes on with `fsync` once the cache file is on disk, or failed to be.
    pub fn synced(&mut self, fh: u64, ok: bool) -> (r: Fsync<String>)
        ensures
            (final(self)@, r@) == old(self)@.synced(fh, ok),
    {
        let (dirty, request) = match self.open_handles.get(&fh) {
            None => return Fsync::Done(Err(EBADF)),
            Some(h) => (h.dirty, h.upload_request()),
        };
        if !ok {
            return Fsync::Done(Err(EIO));
        }
        if !dirty {
            return Fsync::Done(Ok(()));
        }
        self.set_dirty(fh, false);
        Fsync::Upload(request)
    }

    /// Ends `fsync` once the daemon has answered the upload.
    pub fn uploaded(&mut self, fh: u64, reply: Reply) -> (r: Result<(), i32>)
        ensures
            (final(self)@, r) == old(self)@.uploaded(fh, reply_view(reply)),
    {
        match path_answer(reply) {
            Ok(_) => Ok(()),
            Err(e) => {
                if self.check_handle(fh).is_ok() {
                    self.set_dirty(fh, true);
                }
                Err(ipc_error_to_errno(&e))
            },
        }
    }

    /// Releases a file handle: what the daemon is to be told, in order. That
    /// one of the requests fails changes nothing about the others. For an
    /// unknown file handle there is nothing to tell.
    pub fn release(&mut self, fh: u64) -> (r: Vec<Request<String>>)
        ensures
            final(self)@ == old(self)@.without_handle(fh),
            request_views(r@) == old(self)@.release_requests(fh),
    {
        let mut requests: Vec<Request<String>> = Vec::new();
        let removed = self.open_handles.remove(&fh);
        assert(self@ =~= old(self)@.without_handle(fh));
        if let Some(h) = removed {
            if h.dirty {
                requests.push(h.upload_request());
            }
            requests.push(h.close_request());
        }
        assert(request_views(requests@) =~= old(self)@.release_requests(fh));
        requests
    }
}

}
