//! The file system: what each FUSE operation asks of the daemon, what it does
//! to the state of the mount, and what it answers.
//!
//! An operation that talks to the daemon or to the disk is cut at each such
//! point. Its first part hands out what is to be done, and the part that
//! follows takes what came of it. Other operations may run in between.

pub mod attrs;
pub mod calls;
pub mod directories;
pub mod effects;
pub mod errno;
pub mod handles;
pub mod history;
pub mod laws;
pub mod listing;
pub mod names;
pub mod namespace;
pub mod setattr;
pub mod volume;

use crate::fuse_fs::attrs::CachedAttr;
use crate::path_map::{root_only, PathMap, PathMapView};
use std::collections::HashMap;
use vstd::prelude::*;

verus! {

broadcast use vstd::std_specs::hash::group_hash_axioms;

/// A file that is open, with its texts in `S`. A dirty one holds content that
/// the daemon has not been told of.
#[derive(Debug)]
pub struct OpenHandle<S> {
    pub handle_id: S,
    pub remote_path: S,
    pub cache_path: S,
    pub dirty: bool,
}

impl View for OpenHandle<String> {
    type V = OpenHandle<Seq<char>>;

    open spec fn view(&self) -> OpenHandle<Seq<char>> {
        OpenHandle {
            handle_id: self.handle_id@,
            remote_path: self.remote_path@,
            cache_path: self.cache_path@,
            dirty: self.dirty,
        }
    }
}

/// The state of a mount.
pub struct UnidriveFs {
    paths: PathMap,
    attrs: HashMap<u64, CachedAttr>,
    open_handles: HashMap<u64, OpenHandle<String>>,
    next_fh: u64,
    next_handle_id: u64,
    cache_root: Option<Vec<u8>>,
}

/// What a [`UnidriveFs`] stands for.
#[verifier::ext_equal]
pub struct FsView {
    /// The numbering of paths.
    pub paths: PathMapView,
    /// What is known of an inode.
    pub attrs: Map<u64, CachedAttr>,
    /// The open files by file handle.
    pub handles: Map<u64, OpenHandle<Seq<char>>>,
    /// The next file handle.
    pub next_fh: u64,
    /// The number of the next handle id.
    pub next_handle_id: u64,
    /// Where cached content lies, as far as it is to be cleared away.
    pub cache_root: Option<Seq<u8>>,
}

impl FsView {
    pub open spec fn wf(self) -> bool {
        self.paths.wf()
    }
}

impl View for UnidriveFs {
    type V = FsView;

    closed spec fn view(&self) -> FsView {
        FsView {
            paths: self.paths@,
            attrs: self.attrs@,
            handles: self.open_handles@.map_values(|h: OpenHandle<String>| h@),
            next_fh: self.next_fh,
            next_handle_id: self.next_handle_id,
            cache_root: match self.cache_root {
                Some(root) => Some(root@),
                None => None,
            },
        }
    }
}

/// A fresh mount: nothing but the root is known, and nothing is open.
pub open spec fn fresh() -> FsView {
    FsView {
        paths: root_only(),
        attrs: Map::empty(),
        handles: Map::empty(),
        next_fh: 1,
        next_handle_id: 1,
        cache_root: None,
    }
}

/// The number after `n`, which starts over at 0.
pub open spec fn succ(n: u64) -> u64 {
    if n == u64::MAX {
        0
    } else {
        (n + 1) as u64
    }
}

impl UnidriveFs {
    /// A fresh mount, which clears away no cached content.
    pub fn new() -> (r: UnidriveFs)
        ensures
            r@ == fresh(),
            r@.wf(),
    {
        let r = UnidriveFs {
            paths: PathMap::new(),
            attrs: HashMap::new(),
            open_handles: HashMap::new(),
            next_fh: 1,
            next_handle_id: 1,
            cache_root: None,
        };
        assert(r@ =~= fresh());
        r
    }

    /// The same mount, which clears away cached content below `root`.
    pub fn with_cache_root(self, root: Vec<u8>) -> (r: UnidriveFs)
        ensures
            r@ == (FsView { cache_root: Some(root@), ..self@ }),
            self@.wf() ==> r@.wf(),
    {
        let r = UnidriveFs { cache_root: Some(root), ..self };
        assert(r@ =~= FsView { cache_root: Some(root@), ..self@ });
        r
    }
}

/// A fresh mount knows the root alone, and gives out 1 first; numbers rise by
/// one, and start over at 0 behind the largest.
pub proof fn mounts_start_empty(n: u64)
    ensures
        fresh().paths.inode(Seq::empty()) == Some(1u64),
        fresh().paths.next == 2,
        forall|i: u64| !#[trigger] fresh().attrs.contains_key(i),
        forall|fh: u64| !#[trigger] fresh().handles.contains_key(fh),
        fresh().next_fh == 1,
        fresh().next_handle_id == 1,
        fresh().cache_root is None,
        n < u64::MAX ==> succ(n) == n + 1,
        succ(u64::MAX) == 0,
{
    reveal_strlit("");
    assert(""@ =~= Seq::empty());
}

/// A mount that is to clear away cached content does so below the given root,
/// and is else as it was.
pub proof fn cache_root_is_taken_as_given(fs: UnidriveFs, root: Vec<u8>, r: UnidriveFs)
    requires
        call_ensures(UnidriveFs::with_cache_root, (fs, root), r),
    ensures
        r@.cache_root == Some(root@),
        r@.paths == fs@.paths,
        r@.attrs == fs@.attrs,
        r@.handles == fs@.handles,
        r@.next_fh == fs@.next_fh,
        r@.next_handle_id == fs@.next_handle_id,
{
}

}
