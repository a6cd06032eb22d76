//! Changing attributes, of which only the size is kept.

use crate::fuse_fs::attrs::CachedAttr;
use crate::fuse_fs::errno::{
    errno_of, ipc_error_to_errno, namespace_err_to_errno, namespace_errno_of, EBADF, EIO, ENOENT,
};
use crate::fuse_fs::handles::handle_text;
use crate::fuse_fs::{FsView, UnidriveFs};
use crate::ipc::{answered_path, path_answer, reply_view, IpcErrorView, Reply, Request};
use crate::json::JsonView;
use vstd::prelude::*;

verus! {

broadcast use vstd::std_specs::hash::group_hash_axioms;

/// Where a `setattr` stands that waits for an answer of the daemon, with its
/// texts in `S`.
#[derive(Debug)]
pub enum Waiting<S> {
    /// The daemon makes an empty cache file.
    Emptying { path: S },
    /// The daemon fetches the content that is to be cut or extended.
    Fetching { path: S, handle_id: S, size: u64 },
    /// The daemon is told of the new content.
    Uploading { handle_id: S, size: u64 },
    /// The daemon is told that the file is closed. Whatever it answers,
    /// `outcome` is what came of the upload.
    Closing { size: u64, outcome: Result<(), i32> },
}

impl View for Waiting<String> {
    type V = Waiting<Seq<char>>;

    open spec fn view(&self) -> Waiting<Seq<char>> {
        match self {
            Waiting::Emptying { path } => Waiting::Emptying { path: path@ },
            Waiting::Fetching { path, handle_id, size } => Waiting::Fetching {
                path: path@,
                handle_id: handle_id@,
                size: *size,
            },
            Waiting::Uploading { handle_id, size } => Waiting::Uploading {
                handle_id: handle_id@,
                size: *size,
            },
            Waiting::Closing { size, outcome } => Waiting::Closing { size: *size, outcome: *outcome },
        }
    }
}

/// What a `setattr` needs next, with its texts in `S`.
#[derive(Debug)]
pub enum Setattr<S> {
    /// It failed.
    Failed(i32),
    /// An open file is to be resized; [`UnidriveFs::handle_resized`] goes on.
    ResizeHandle { fh: u64, size: u64 },
    /// A cache file is to be opened for writing and resized;
    /// [`UnidriveFs::cache_resized`] goes on.
    ResizeCache { path: S, handle_id: S, cache_path: S, size: u64 },
    /// The daemon is to be asked; [`UnidriveFs::setattr_replied`] goes on.
    Ask { request: Request<S>, waiting: Waiting<S> },
    /// The size is changed; [`UnidriveFs::getattr`] answers.
    Refresh,
}

impl View for Setattr<String> {
    type V = Setattr<Seq<char>>;

    open spec fn view(&self) -> Setattr<Seq<char>> {
        match self {
            Setattr::Failed(e) => Setattr::Failed(*e),
            Setattr::ResizeHandle { fh, size } => Setattr::ResizeHandle { fh: *fh, size: *size },
            Setattr::ResizeCache { path, handle_id, cache_path, size } => Setattr::ResizeCache {
                path: path@,
                handle_id: handle_id@,
                cache_path: cache_path@,
                size: *size,
            },
            Setattr::Ask { request, waiting } => Setattr::Ask {
                request: request@,
                waiting: waiting@,
            },
            Setattr::Refresh => Setattr::Refresh,
        }
    }
}

/// Tells the daemon of the new content of `path`.
pub open spec fn commit(
    path: Seq<char>,
    handle_id: Seq<char>,
    cache_path: Seq<char>,
    size: u64,
) -> Setattr<Seq<char>> {
    Setattr::Ask {
        request: Request::OpenWrite { handle_id, path, cache_path },
        waiting: Waiting::Uploading { handle_id, size },
    }
}

/// Tells the daemon that the file is closed.
pub open spec fn close(handle_id: Seq<char>, size: u64, outcome: Result<(), i32>) -> Setattr<
    Seq<char>,
> {
    Setattr::Ask {
        request: Request::CloseHandle { handle_id },
        waiting: Waiting::Closing { size, outcome },
    }
}

impl FsView {
    /// How `setattr` begins. Without a size there is nothing to do. An open
    /// file is resized in place. For a file that is not open the daemon makes
    /// an empty cache file, or fetches the content.
    pub open spec fn setattr(self, inode: u64, fh: Option<u64>, size: Option<u64>) -> (
        FsView,
        Setattr<Seq<char>>,
    ) {
        match (self.paths.path(inode), size, fh) {
            (None, _, _) => (self, Setattr::Failed(ENOENT)),
            (_, None, _) => (self, Setattr::Refresh),
            (_, Some(size), Some(fh)) => if self.handles.contains_key(fh) {
                (self, Setattr::ResizeHandle { fh, size })
            } else {
                (self, Setattr::Failed(EBADF))
            },
            (Some(path), Some(size), None) => if size == 0 {
                (
                    self,
                    Setattr::Ask {
                        request: Request::OpenWriteBegin { path, handle_id: None },
                        waiting: Waiting::Emptying { path },
                    },
                )
            } else {
                let handle_id = handle_text("truncN-"@, self.next_handle_id);
                (
                    self.id_taken(),
                    Setattr::Ask {
                        request: Request::OpenRead { handle_id, path },
                        waiting: Waiting::Fetching { path, handle_id, size },
                    },
                )
            },
        }
    }

    /// The same with the size of an inode changed, where something is known
    /// of it.
    pub open spec fn with_size(self, inode: u64, size: u64) -> FsView {
        if self.attrs.contains_key(inode) {
            FsView {
                attrs: self.attrs.insert(inode, CachedAttr { size, ..self.attrs[inode] }),
                ..self
            }
        } else {
            self
        }
    }

    /// How `setattr` goes on once an open file was resized, or was not: only
    /// then the file is dirty.
    pub open spec fn handle_resized(self, inode: u64, fh: u64, size: u64, ok: bool) -> (
        FsView,
        Setattr<Seq<char>>,
    ) {
        if !self.handles.contains_key(fh) {
            (self, Setattr::Failed(EBADF))
        } else if !ok {
            (self, Setattr::Failed(EIO))
        } else {
            (self.with_dirty(fh, true).with_size(inode, size), Setattr::Refresh)
        }
    }

    /// How `setattr` goes on once a cache file was resized, or was not: only
    /// then the daemon is told of it.
    pub open spec fn cache_resized(
        path: Seq<char>,
        handle_id: Seq<char>,
        cache_path: Seq<char>,
        size: u64,
        ok: bool,
    ) -> Setattr<Seq<char>> {
        if ok {
            commit(path, handle_id, cache_path, size)
        } else {
            close(handle_id, size, Err(EIO))
        }
    }

    /// How `setattr` goes on once the daemon has answered.
    pub open spec fn setattr_replied(
        self,
        inode: u64,
        waiting: Waiting<Seq<char>>,
        reply: Result<JsonView, IpcErrorView>,
    ) -> (FsView, Setattr<Seq<char>>) {
        match waiting {
            Waiting::Emptying { path } => match answered_path(reply) {
                Err(e) => (self, Setattr::Failed(namespace_errno_of(e))),
                Ok(cache_path) => (
                    self.id_taken(),
                    commit(path, handle_text("trunc0-"@, self.next_handle_id), cache_path, 0),
                ),
            },
            Waiting::Fetching { path, handle_id, size } => match answered_path(reply) {
                Err(e) => (self, Setattr::Failed(errno_of(e))),
                Ok(cache_path) => (
                    self,
                    Setattr::ResizeCache { path, handle_id, cache_path, size },
                ),
            },
            Waiting::Uploading { handle_id, size } => (
                self,
                close(
                    handle_id,
                    size,
                    match answered_path(reply) {
                        Ok(_) => Ok(()),
                        Err(e) => Err(errno_of(e)),
                    },
                ),
            ),
            Waiting::Closing { size, outcome } => match outcome {
                Err(e) => (self, Setattr::Failed(e)),
                Ok(()) => (self.with_size(inode, size), Setattr::Refresh),
            },
        }
    }
}

fn commit_step(path: String, handle_id: String, cache_path: String, size: u64) -> (r: Setattr<
    String,
>)
    ensures
        r@ == commit(path@, handle_id@, cache_path@, size),
{
    let request = Request::OpenWrite { handle_id: handle_id.clone(), path, cache_path };
    Setattr::Ask { request, waiting: Waiting::Uploading { handle_id, size } }
}

fn close_step(handle_id: String, size: u64, outcome: Result<(), i32>) -> (r: Setattr<String>)
    ensures
        r@ == close(handle_id@, size, outcome),
{
    Setattr::Ask {
        request: Request::CloseHandle { handle_id },
        waiting: Waiting::Closing { size, outcome },
    }
}

impl UnidriveFs {
    /// Begins `setattr`, which may name an open file and a new size.
    pub fn setattr(&mut self, inode: u64, fh: Option<u64>, size: Option<u64>) -> (r: Setattr<
        String,
    >)
        ensures
            (final(self)@, r@) == old(self)@.setattr(inode, fh, size),
    {
        let path = match self.resolve(inode) {
            Ok(path) => path,
            Err(e) => return Setattr::Failed(e),
        };
        let size: u64 = match size {
            Some(size) => size,
            None => return Setattr::Refresh,
        };
        if let Some(fh) = fh {
            return match self.check_handle(fh) {
                Ok(()) => Setattr::ResizeHandle { fh, size },
                Err(e) => Setattr::Failed(e),
            };
        }
        if size == 0 {
            let request = Request::OpenWriteBegin { path: path.clone(), handle_id: None };
            return Setattr::Ask { request, waiting: Waiting::Emptying { path } };
        }
        let handle_id = self.take_handle_id("truncN-");
        let request = Request::OpenRead { handle_id: handle_id.clone(), path: path.clone() };
        Setattr::Ask { request, waiting: Waiting::Fetching { path, handle_id, size } }
    }

    fn set_size(&mut self, inode: u64, size: u64)
        ensures
            final(self)@ == old(self)@.with_size(inode, size),
    {
        if let Some(a) = self.attrs.remove(&inode) {
            self.attrs.insert(inode, CachedAttr { size, ..a });
        }
        assert(self@ =~= old(self)@.with_size(inode, size));
    }

    /// Goes on with `setattr` once an open file was resized, or was not.
    pub fn handle_resized(&mut self, inode: u64, fh: u64, size: u64, ok: bool) -> (r: Setattr<
        String,
    >)
        ensures
            (final(self)@, r@) == old(self)@.handle_resized(inode, fh, size, ok),
    {
        if let Err(e) = self.check_handle(fh) {
            return Setattr::Failed(e);
        }
        if !ok {
            return Setattr::Failed(EIO);
        }
        self.set_dirty(fh, true);
        self.set_size(inode, size);
        Setattr::Refresh
    }

    /// Goes on with `setattr` once a cache file was resized, or was not.
    pub fn cache_resized(
        path: String,
        handle_id: String,
        cache_path: String,
        size: u64,
        ok: bool,
    ) -> (r: Setattr<String>)
        ensures
            r@ == FsView::cache_resized(path@, handle_id@, cache_path@, size, ok),
    {
        if ok {
            commit_step(path, handle_id, cache_path, size)
        } else {
            close_step(handle_id, size, Err(EIO))
        }
    }

    /// Goes on with `setattr` once the daemon has answered.
    pub fn setattr_replied(&mut self, inode: u64, waiting: Waiting<String>, reply: Reply) -> (r:
        Setattr<String>)
        ensures
            (final(self)@, r@) == old(self)@.setattr_replied(inode, waiting@, reply_view(reply)),
    {
        match waiting {
            Waiting::Emptying { path } => match path_answer(reply) {
                Err(e) => Setattr::Failed(namespace_err_to_errno(&e)),
                Ok(cache_path) => {
                    let handle_id = self.take_handle_id("trunc0-");
                    commit_step(path, handle_id, cache_path, 0)
                },
            },
            Waiting::Fetching { path, handle_id, size } => match path_answer(reply) {
                Err(e) => Setattr::Failed(ipc_error_to_errno(&e)),
                Ok(cache_path) => Setattr::ResizeCache { path, handle_id, cache_path, size },
            },
            Waiting::Uploading { handle_id, size } => {
                let outcome = match path_answer(reply) {
                    Ok(_) => Ok(()),
                    Err(e) => Err(ipc_error_to_errno(&e)),
                };
                close_step(handle_id, size, outcome)
            },
            Waiting::Closing { size, outcome } => match outcome {
                Err(e) => Setattr::Failed(e),
                Ok(()) => {
                    self.set_size(inode, size);
                    Setattr::Refresh
                },
            },
        }
    }
}

}
