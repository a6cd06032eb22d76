//! Making, moving and removing names.

use crate::fuse_fs::attrs::{clock_ms, file_attr_from_cached, mtime_now, shown, CachedAttr, FileAttr, Owner};
use crate::fuse_fs::errno::{namespace_err_to_errno, namespace_errno_of, EINVAL, EIO, ENOENT, EPERM};
use crate::fuse_fs::handles::{handle_text, request_views};
use crate::fuse_fs::names::{
    child_of, join_child, trim_start_slashes, without_start_slashes,
};
use crate::fuse_fs::{FsView, OpenHandle, UnidriveFs};
use crate::ipc::{
    answered_bare, answered_create, bare_answer, create_answer, reply_view, IpcErrorView, Reply,
    Request,
};
use crate::json::JsonView;
use crate::unix_path::{join_path, joined};
use vstd::prelude::*;
use vstd::utf8::encode_utf8;

verus! {

broadcast use vstd::std_specs::hash::group_hash_axioms;

/// The file type bits of a mode.
pub const S_IFMT: u32 = 0o170000;

/// The file type of a regular file.
pub const S_IFREG: u32 = 0o100000;

/// A name as the kernel gave it, `None` where it is no text.
pub open spec fn name_view(name: Option<&str>) -> Option<Seq<char>> {
    match name {
        Some(s) => Some(s@),
        None => None,
    }
}

/// A file for which the daemon is asked to make it.
#[derive(Debug)]
pub struct PendingCreate<S> {
    pub path: S,
    pub handle_id: S,
}

impl View for PendingCreate<String> {
    type V = PendingCreate<Seq<char>>;

    open spec fn view(&self) -> PendingCreate<Seq<char>> {
        PendingCreate { path: self.path@, handle_id: self.handle_id@ }
    }
}

/// A file that the daemon made, and whose cache file is opened for reading
/// and writing, made if it is missing, and emptied. The handle id is the
/// daemon's.
#[derive(Debug)]
pub struct CreatedFile<S> {
    pub path: S,
    pub handle_id: S,
    pub cache_path: S,
}

impl View for CreatedFile<String> {
    type V = CreatedFile<Seq<char>>;

    open spec fn view(&self) -> CreatedFile<Seq<char>> {
        CreatedFile { path: self.path@, handle_id: self.handle_id@, cache_path: self.cache_path@ }
    }
}

/// What is known of a directory that was just made.
pub open spec fn new_folder(now: Option<u128>) -> CachedAttr {
    CachedAttr { size: 0, mtime_ms: clock_ms(now), is_folder: true, is_hydrated: false }
}

/// What is known of a file that was just made.
pub open spec fn new_file(now: Option<u128>) -> CachedAttr {
    CachedAttr { size: 0, mtime_ms: clock_ms(now), is_folder: false, is_hydrated: true }
}

/// A mode for which a node can be made: that of a regular file, or none.
pub open spec fn regular_mode(mode: u32) -> bool {
    mode & S_IFMT == 0 || mode & S_IFMT == S_IFREG
}

impl FsView {
    /// The path of the entry `name` of `parent`.
    pub open spec fn child(self, parent: u64, name: Option<Seq<char>>) -> Result<Seq<char>, i32> {
        match (name, self.paths.path(parent)) {
            (None, _) => Err(EINVAL),
            (_, None) => Err(ENOENT),
            (Some(name), Some(parent_path)) => Ok(child_of(parent_path, name)),
        }
    }

    /// The same where `path` has an inode, of which `a` is known.
    pub open spec fn with_entry(self, path: Seq<char>, a: CachedAttr) -> FsView {
        FsView {
            paths: self.paths.interned(path),
            attrs: self.attrs.insert(self.paths.inode_of(path), a),
            ..self
        }
    }

    /// How `mkdir` ends once the daemon has answered.
    pub open spec fn made_directory(
        self,
        path: Seq<char>,
        reply: Result<JsonView, IpcErrorView>,
        now: Option<u128>,
        owner: Owner,
    ) -> (FsView, Result<FileAttr, i32>) {
        match answered_bare(reply) {
            Err(e) => (self, Err(namespace_errno_of(e))),
            Ok(()) => (
                self.with_entry(path, new_folder(now)),
                Ok(shown(self.paths.inode_of(path), new_folder(now), owner)),
            ),
        }
    }

    /// The same without `path`, and without what is known of its inode.
    pub open spec fn without_entry(self, path: Seq<char>) -> FsView {
        FsView {
            paths: self.paths.forgotten(path),
            attrs: match self.paths.inode(path) {
                Some(ino) => self.attrs.remove(ino),
                None => self.attrs,
            },
            ..self
        }
    }

    /// Where the cached content of `path` lies, as far as it is to be cleared
    /// away.
    pub open spec fn cached_at(self, path: Seq<char>) -> Option<Seq<u8>> {
        match self.cache_root {
            None => None,
            Some(root) => Some(joined(root, encode_utf8(without_start_slashes(path)))),
        }
    }

    /// How `unlink` and `rmdir` end once the daemon has answered: the cached
    /// content is cleared away.
    pub open spec fn removed(self, path: Seq<char>, reply: Result<JsonView, IpcErrorView>) -> (
        FsView,
        Result<Option<Seq<u8>>, i32>,
    ) {
        match answered_bare(reply) {
            Err(e) => (self, Err(namespace_errno_of(e))),
            Ok(()) => (self.without_entry(path), Ok(self.cached_at(path))),
        }
    }

    /// How a file begins to be made.
    pub open spec fn create(self, parent: u64, name: Option<Seq<char>>) -> (
        FsView,
        Result<PendingCreate<Seq<char>>, i32>,
    ) {
        match self.child(parent, name) {
            Err(e) => (self, Err(e)),
            Ok(path) => (
                self.id_taken(),
                Ok(
                    PendingCreate {
                        path,
                        handle_id: handle_text("create-"@, self.next_handle_id),
                    },
                ),
            ),
        }
    }

    /// How a file ends being made, once its cache file was opened, or was not:
    /// its file handle, attributes and inode. It is dirty from the start, so
    /// that an empty file is told of too.
    pub open spec fn created(
        self,
        file: CreatedFile<Seq<char>>,
        ok: bool,
        now: Option<u128>,
        owner: Owner,
    ) -> (FsView, Result<(u64, FileAttr, u64), i32>) {
        if !ok {
            (self, Err(EIO))
        } else {
            let ino = self.paths.inode_of(file.path);
            (
                self.with_entry(file.path, new_file(now)).with_handle(
                    OpenHandle {
                        handle_id: file.handle_id,
                        remote_path: file.path,
                        cache_path: file.cache_path,
                        dirty: true,
                    },
                ),
                Ok((self.next_fh, shown(ino, new_file(now), owner), ino)),
            )
        }
    }

    /// What the daemon is told of a file that was made and is not kept open:
    /// of its content, and that it is closed.
    pub open spec fn closing_requests(self, fh: u64) -> Seq<Request<Seq<char>>> {
        if self.handles.contains_key(fh) {
            seq![self.handles[fh].upload(), self.handles[fh].close()]
        } else {
            Seq::empty()
        }
    }

    /// How `rename` ends once the daemon has answered.
    pub open spec fn moved(
        self,
        from: Seq<char>,
        to: Seq<char>,
        reply: Result<JsonView, IpcErrorView>,
    ) -> (FsView, Result<(), i32>) {
        match answered_bare(reply) {
            Err(e) => (self, Err(namespace_errno_of(e))),
            Ok(()) => (FsView { paths: self.paths.renamed(from, to), ..self }, Ok(())),
        }
    }
}

impl PendingCreate<Seq<char>> {
    /// What the daemon is asked.
    pub open spec fn request(self) -> Request<Seq<char>> {
        Request::Create { handle_id: self.handle_id, path: self.path }
    }

    /// How a file goes on being made once the daemon has answered.
    pub open spec fn replied(self, reply: Result<JsonView, IpcErrorView>) -> Result<
        CreatedFile<Seq<char>>,
        i32,
    > {
        match answered_create(reply) {
            Err(e) => Err(namespace_errno_of(e)),
            Ok((cache_path, handle_id)) => Ok(
                CreatedFile { path: self.path, handle_id, cache_path },
            ),
        }
    }
}

impl PendingCreate<String> {
    /// What the daemon is asked.
    pub fn request(&self) -> (r: Request<String>)
        ensures
            r@ == self@.request(),
    {
        Request::Create { handle_id: self.handle_id.clone(), path: self.path.clone() }
    }

    /// Goes on making a file once the daemon has answered.
    pub fn replied(self, reply: Reply) -> (r: Result<CreatedFile<String>, i32>)
        ensures
            match r {
                Ok(file) => self@.replied(reply_view(reply)) == Ok::<CreatedFile<Seq<char>>, i32>(
                    file@,
                ),
                Err(e) => self@.replied(reply_view(reply)) == Err::<CreatedFile<Seq<char>>, i32>(e),
            },
    {
        match create_answer(reply) {
            Err(e) => Err(namespace_err_to_errno(&e)),
            Ok(made) => Ok(
                CreatedFile {
                    path: self.path,
                    handle_id: made.handle_id,
                    cache_path: made.cache_path,
                },
            ),
        }
    }
}

impl UnidriveFs {
    fn child_path(&self, parent: u64, name: Option<&str>) -> (r: Result<String, i32>)
        ensures
            match r {
                Ok(path) => self@.child(parent, name_view(name)) == Ok::<Seq<char>, i32>(path@),
                Err(e) => self@.child(parent, name_view(name)) == Err::<Seq<char>, i32>(e),
            },
    {
        match name {
            None => Err(EINVAL),
            Some(name) => {
                let parent_path = self.resolve(parent)?;
                Ok(join_child(parent_path.as_str(), name))
            },
        }
    }

    fn remember(&mut self, path: &str, a: CachedAttr) -> (r: u64)
        requires
            old(self)@.wf(),
            old(self)@.fits(1),
        ensures
            final(self)@.wf(),
            final(self)@ == old(self)@.with_entry(path@, a),
            r == old(self)@.paths.inode_of(path@),
    {
        let ino: u64 = self.paths.intern(path);
        self.attrs.insert(ino, a);
        assert(self@ =~= old(self)@.with_entry(path@, a));
        ino
    }

    /// Begins `mkdir`: the path of the directory to make, and what the daemon
    /// is to be asked.
    pub fn mkdir(&self, parent: u64, name: Option<&str>) -> (r: Result<
        (String, Request<String>),
        i32,
    >)
        ensures
            match r {
                Ok((path, request)) => self@.child(parent, name_view(name)) == Ok::<
                    Seq<char>,
                    i32,
                >(path@) && request@ == (Request::Mkdir { path: path@ }),
                Err(e) => self@.child(parent, name_view(name)) == Err::<Seq<char>, i32>(e),
            },
    {
        let path = self.child_path(parent, name)?;
        let request = Request::Mkdir { path: path.clone() };
        Ok((path, request))
    }

    /// Ends `mkdir` once the daemon has answered the request to make `path`.
    /// `now` is the time since the epoch in milliseconds.
    pub fn made_directory(
        &mut self,
        path: &str,
        reply: Reply,
        now: Option<u128>,
        owner: Owner,
    ) -> (r: Result<FileAttr, i32>)
        requires
            old(self)@.wf(),
            old(self)@.fits(1),
        ensures
            final(self)@.wf(),
            (final(self)@, r) == old(self)@.made_directory(path@, reply_view(reply), now, owner),
    {
        match bare_answer(reply) {
            Err(e) => Err(namespace_err_to_errno(&e)),
            Ok(()) => {
                let a = CachedAttr {
                    size: 0,
                    mtime_ms: mtime_now(now),
                    is_folder: true,
                    is_hydrated: false,
                };
                let ino: u64 = self.remember(path, a);
                Ok(file_attr_from_cached(ino, &a, owner))
            },
        }
    }

    /// Begins `unlink`: the path of the file to remove, and what the daemon is
    /// to be asked.
    pub fn unlink(&self, parent: u64, name: Option<&str>) -> (r: Result<
        (String, Request<String>),
        i32,
    >)
        ensures
            match r {
                Ok((path, request)) => self@.child(parent, name_view(name)) == Ok::<
                    Seq<char>,
                    i32,
                >(path@) && request@ == (Request::Unlink { path: path@ }),
                Err(e) => self@.child(parent, name_view(name)) == Err::<Seq<char>, i32>(e),
            },
    {
        let path = self.child_path(parent, name)?;
        let request = Request::Unlink { path: path.clone() };
        Ok((path, request))
    }

    /// Begins `rmdir`: the path of the directory to remove, and what the
    /// daemon is to be asked.
    pub fn rmdir(&self, parent: u64, name: Option<&str>) -> (r: Result<
        (String, Request<String>),
        i32,
    >)
        ensures
            match r {
                Ok((path, request)) => self@.child(parent, name_view(name)) == Ok::<
                    Seq<char>,
                    i32,
                >(path@) && request@ == (Request::Rmdir { path: path@ }),
                Err(e) => self@.child(parent, name_view(name)) == Err::<Seq<char>, i32>(e),
            },
    {
        let path = self.child_path(parent, name)?;
        let request = Request::Rmdir { path: path.clone() };
        Ok((path, request))
    }

    fn cache_path_of(&self, path: &str) -> (r: Option<Vec<u8>>)
        ensures
            match r {
                Some(at) => self@.cached_at(path@) == Some(at@),
                None => self@.cached_at(path@) is None,
            },
    {
        match &self.cache_root {
            None => None,
            Some(root) => {
                let rel = trim_start_slashes(path);
                Some(join_path(root, rel.as_str().as_bytes()))
            },
        }
    }

    /// Ends `unlink` and `rmdir` once the daemon has answered the request to
    /// remove `path`: what cached content to clear away. That this fails does
    /// not fail the operation.
    pub fn removed(&mut self, path: &str, reply: Reply) -> (r: Result<Option<Vec<u8>>, i32>)
        requires
            old(self)@.wf(),
        ensures
            final(self)@.wf(),
            final(self)@ == old(self)@.removed(path@, reply_view(reply)).0,
            match old(self)@.removed(path@, reply_view(reply)).1 {
                Err(e) => r == Err::<Option<Vec<u8>>, i32>(e),
                Ok(None) => r == Ok::<Option<Vec<u8>>, i32>(None),
                Ok(Some(at)) => r matches Ok(Some(bytes)) && bytes@ == at,
            },
    {
        match bare_answer(reply) {
            Err(e) => Err(namespace_err_to_errno(&e)),
            Ok(()) => {
                let at = self.cache_path_of(path);
                if let Some(ino) = self.paths.forget(path) {
                    self.attrs.remove(&ino);
                }
                assert(self@ =~= old(self)@.without_entry(path@));
                Ok(at)
            },
        }
    }

    /// Begins `create` and `mknod`: what the daemon is to be asked.
    pub fn create_internal(&mut self, parent: u64, name: Option<&str>) -> (r: Result<
        PendingCreate<String>,
        i32,
    >)
        ensures
            final(self)@ == old(self)@.create(parent, name_view(name)).0,
            match r {
                Ok(pending) => old(self)@.create(parent, name_view(name)).1 == Ok::<
                    PendingCreate<Seq<char>>,
                    i32,
                >(pending@),
                Err(e) => old(self)@.create(parent, name_view(name)).1 == Err::<
                    PendingCreate<Seq<char>>,
                    i32,
                >(e),
            },
    {
        let path = self.child_path(parent, name)?;
        let handle_id = self.take_handle_id("create-");
        Ok(PendingCreate { path, handle_id })
    }

    /// Ends `create` once the cache file was opened, or was not: the file
    /// handle, the attributes and the inode.
    pub fn created(
        &mut self,
        file: CreatedFile<String>,
        ok: bool,
        now: Option<u128>,
        owner: Owner,
    ) -> (r: Result<(u64, FileAttr, u64), i32>)
        requires
            old(self)@.wf(),
            old(self)@.fits(1),
        ensures
            final(self)@.wf(),
            (final(self)@, r) == old(self)@.created(file@, ok, now, owner),
    {
        if !ok {
            return Err(EIO);
        }
        let a = CachedAttr {
            size: 0,
            mtime_ms: mtime_now(now),
            is_folder: false,
            is_hydrated: true,
        };
        let ino: u64 = self.remember(file.path.as_str(), a);
        let fh: u64 = self.add_handle(
            OpenHandle {
                handle_id: file.handle_id,
                remote_path: file.path,
                cache_path: file.cache_path,
                dirty: true,
            },
        );
        Ok((fh, file_attr_from_cached(ino, &a, owner), ino))
    }

    /// Begins `mknod`: `EPERM` for all but regular files, of which
    /// [`UnidriveFs::create_internal`] then takes care.
    pub fn mknod(&self, mode: u32) -> (r: Result<(), i32>)
        ensures
            r == if regular_mode(mode) {
                Ok::<(), i32>(())
            } else {
                Err::<(), i32>(EPERM)
            },
    {
        let typ: u32 = mode & S_IFMT;
        if typ != 0 && typ != S_IFREG {
            return Err(EPERM);
        }
        Ok(())
    }

    /// Ends `mknod`, which keeps no file open: what the daemon is to be told,
    /// in order.
    pub fn made_node(&mut self, fh: u64) -> (r: Vec<Request<String>>)
        ensures
            final(self)@ == old(self)@.without_handle(fh),
            request_views(r@) == old(self)@.closing_requests(fh),
    {
        let mut requests: Vec<Request<String>> = Vec::new();
        let removed = self.open_handles.remove(&fh);
        assert(self@ =~= old(self)@.without_handle(fh));
        if let Some(h) = removed {
            requests.push(h.upload_request());
            requests.push(h.close_request());
        }
        assert(request_views(requests@) =~= old(self)@.closing_requests(fh));
        requests
    }

    /// Begins `rename`: the old and the new path, and what the daemon is to be
    /// asked.
    pub fn rename(
        &self,
        old_parent: u64,
        old_name: Option<&str>,
        new_parent: u64,
        new_name: Option<&str>,
    ) -> (r: Result<(String, String, Request<String>), i32>)
        ensures
            match r {
                Ok((from, to, request)) => self@.child(old_parent, name_view(old_name)) == Ok::<
                    Seq<char>,
                    i32,
                >(from@) && self@.child(new_parent, name_view(new_name)) == Ok::<Seq<char>, i32>(
                    to@,
                ) && request@ == (Request::Rename { old_path: from@, new_path: to@ }),
                Err(e) => if old_name is None || new_name is None {
                    e == EINVAL
                } else {
                    e == ENOENT && (self@.paths.path(old_parent) is None || self@.paths.path(
                        new_parent,
                    ) is None)
                },
            },
    {
        if new_name.is_none() {
            return Err(EINVAL);
        }
        let from = self.child_path(old_parent, old_name)?;
        let to = self.child_path(new_parent, new_name)?;
        let request = Request::Rename { old_path: from.clone(), new_path: to.clone() };
        Ok((from, to, request))
    }

    /// Ends `rename` once the daemon has answered. The inode goes along with
    /// the name.
    pub fn moved(&mut self, from: &str, to: &str, reply: Reply) -> (r: Result<(), i32>)
        requires
            old(self)@.wf(),
        ensures
            final(self)@.wf(),
            (final(self)@, r) == old(self)@.moved(from@, to@, reply_view(reply)),
    {
        match bare_answer(reply) {
            Err(e) => Err(namespace_err_to_errno(&e)),
            Ok(()) => {
                let _inode = self.paths.rename(from, to);
                assert(self@ =~= old(self)@.moved(from@, to@, reply_view(reply)).0);
                Ok(())
            },
        }
    }
}

}
