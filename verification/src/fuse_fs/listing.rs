//! Looking things up and listing directories.

use crate::fuse_fs::attrs::{
    attr_of, file_attr_from_cached, root_attr, shown, CachedAttr, FileAttr, Owner,
};
use crate::fuse_fs::errno::{errno_of, ipc_error_to_errno, EINVAL, ENOENT};
use crate::fuse_fs::names::{entry_path, join_entry, parent_of, parent_prefix};
use crate::fuse_fs::{FsView, UnidriveFs};
use crate::ipc::{entry_views, IpcError, IpcErrorView, ListEntry, ListEntryView};
use crate::path_map::{PathMapView, ROOT_INODE};
use crate::text::same;
use vstd::prelude::*;

verus! {

broadcast use vstd::std_specs::hash::group_hash_axioms;

/// A listing as the daemon gave it, or its failure.
pub open spec fn listing_view(listing: Result<Vec<ListEntry>, IpcError>) -> Result<
    Seq<ListEntryView>,
    IpcErrorView,
> {
    match listing {
        Ok(entries) => Ok(entry_views(entries@)),
        Err(e) => Err(e@),
    }
}

impl FsView {
    /// The state after `entries` were listed: each has an inode, and what it
    /// says is remembered.
    pub open spec fn populated(self, entries: Seq<ListEntryView>) -> FsView
        decreases entries.len(),
    {
        if entries.len() == 0 {
            self
        } else {
            let before = self.populated(entries.drop_last());
            let e = entries.last();
            FsView {
                paths: before.paths.interned(e.path),
                attrs: before.attrs.insert(before.paths.inode_of(e.path), attr_of(e)),
                ..before
            }
        }
    }

    /// There is room for `n` more paths.
    pub open spec fn fits(self, n: nat) -> bool {
        self.paths.next + n <= u64::MAX && n <= i64::MAX - 3
    }

    /// What is known of an inode, the root included.
    pub open spec fn known(self, inode: u64) -> Option<CachedAttr> {
        if inode == ROOT_INODE {
            Some(root_attr())
        } else if self.attrs.contains_key(inode) {
            Some(self.attrs[inode])
        } else {
            None
        }
    }
}

/// The listed entries, each with the inode that it has in `paths`.
pub open spec fn numbered(paths: PathMapView, entries: Seq<ListEntryView>) -> Seq<
    (u64, ListEntryView),
> {
    entries.map_values(|e: ListEntryView| (paths.inode_of(e.path), e))
}

/// Entries with their inodes.
pub open spec fn numbered_views(listed: Seq<(u64, ListEntry)>) -> Seq<(u64, ListEntryView)> {
    listed.map_values(|x: (u64, ListEntry)| (x.0, x.1@))
}

/// Listing keeps the state well formed, keeps every inode that was there, and
/// gives one to each entry.
pub proof fn lemma_populated(v: FsView, entries: Seq<ListEntryView>)
    requires
        v.wf(),
        v.fits(entries.len()),
    ensures
        v.populated(entries).wf(),
        v.populated(entries).paths.next <= v.paths.next + entries.len(),
        v.populated(entries).handles == v.handles,
        v.populated(entries).next_fh == v.next_fh,
        v.populated(entries).next_handle_id == v.next_handle_id,
        v.populated(entries).cache_root == v.cache_root,
        forall|p: Seq<char>| #[trigger]
            v.paths.inodes.contains_key(p) ==> v.populated(entries).paths.inodes.contains_key(p)
                && v.populated(entries).paths.inodes[p] == v.paths.inodes[p],
        forall|i: int|
            0 <= i < entries.len() ==> v.populated(entries).paths.inodes.contains_key(
                (#[trigger] entries[i]).path,
            ),
    decreases entries.len(),
{
    if entries.len() > 0 {
        let before = v.populated(entries.drop_last());
        lemma_populated(v, entries.drop_last());
        assert forall|i: int| 0 <= i < entries.len() implies v.populated(
            entries,
        ).paths.inodes.contains_key((#[trigger] entries[i]).path) by {
            if i < entries.len() - 1 {
                assert(entries.drop_last()[i] == entries[i]);
            }
        }
    }
}

/// What is remembered of a listed entry is what the last entry of that path
/// says.
pub proof fn listed_attrs_are_remembered(v: FsView, entries: Seq<ListEntryView>, i: int)
    requires
        v.wf(),
        v.fits(entries.len()),
        0 <= i < entries.len(),
        forall|j: int| i < j < entries.len() ==> (#[trigger] entries[j]).path != entries[i].path,
    ensures
        ({
            let after = v.populated(entries);
            let ino = after.paths.inode_of(entries[i].path);
            after.attrs.contains_key(ino) && after.attrs[ino] == attr_of(entries[i])
        }),
    decreases entries.len(),
{
    lemma_populated(v, entries);
    let rest = entries.drop_last();
    lemma_populated(v, rest);
    if i < entries.len() - 1 {
        assert(rest[i] == entries[i]);
        assert forall|j: int| i < j < rest.len() implies (#[trigger] rest[j]).path
            != rest[i].path by {
            assert(rest[j] == entries[j]);
        }
        listed_attrs_are_remembered(v, rest, i);
        assert(entries[entries.len() - 1].path != entries[i].path);
        let before = v.populated(rest);
        assert(before.paths.inodes.contains_key(entries[i].path));
    }
}

impl UnidriveFs {
    /// Whether there is room for `n` more paths.
    pub fn fits(&self, n: usize) -> (r: bool)
        ensures
            r == self@.fits(n as nat),
    {
        let n: u64 = n as u64;
        n <= self.paths.room() && n <= 0x7fff_ffff_ffff_fffc
    }

    /// Numbers and remembers what was listed; hands it back with the inodes,
    /// in the order of the listing.
    pub fn populate_from_list(&mut self, entries: Vec<ListEntry>) -> (r: Vec<(u64, ListEntry)>)
        requires
            old(self)@.wf(),
            old(self)@.fits(entries@.len()),
        ensures
            final(self)@.wf(),
            final(self)@ == old(self)@.populated(entry_views(entries@)),
            numbered_views(r@) == numbered(final(self)@.paths, entry_views(entries@)),
    {
        let ghost start = self@;
        let ghost all = entry_views(entries@);
        let mut out: Vec<(u64, ListEntry)> = Vec::new();
        assert(all.take(0) =~= Seq::empty());
        assert(numbered_views(out@) =~= numbered(self@.paths, all.take(0)));
        for e in it: entries
            invariant
                it.seq() == entries@,
                all == entry_views(entries@),
                start.wf(),
                start.fits(all.len()),
                self@.wf(),
                self@ == start.populated(all.take(it.index())),
                numbered_views(out@) == numbered(self@.paths, all.take(it.index())),
        {
            let ghost k = it.index();
            proof {
                lemma_populated(start, all.take(k));
                assert(all.take(k + 1).drop_last() =~= all.take(k));
                assert(all[k] == e@);
            }
            let ghost before = self@;
            let ghost done = out@;
            let ino: u64 = self.paths.intern(e.path.as_str());
            self.attrs.insert(ino, CachedAttr::from_entry(&e));
            assert(self@ =~= start.populated(all.take(k + 1)));
            out.push((ino, e));
            proof {
                assert forall|i: int| 0 <= i < k implies before.paths.inodes.contains_key(
                    (#[trigger] all.take(k)[i]).path,
                ) by {}
                assert(numbered(self@.paths, all.take(k)) =~= numbered(before.paths, all.take(k)));
                assert(all.take(k + 1) =~= all.take(k).push(all[k]));
                assert(numbered_views(out@) =~= numbered_views(done).push((ino, all[k])));
                assert(numbered(self@.paths, all.take(k + 1)) =~= numbered(
                    self@.paths,
                    all.take(k),
                ).push((ino, all[k])));
            }
        }
        assert(all.take(all.len() as int) =~= all);
        out
    }
}

/// Something to answer, or a directory to list first, with its text in `S`.
pub enum Fetch<T, S> {
    Done(Result<T, i32>),
    List { prefix: S },
}

impl<T> View for Fetch<T, String> {
    type V = Fetch<T, Seq<char>>;

    open spec fn view(&self) -> Fetch<T, Seq<char>> {
        match self {
            Fetch::Done(r) => Fetch::Done(*r),
            Fetch::List { prefix } => Fetch::List { prefix: prefix@ },
        }
    }
}

/// A lookup that is answered, or that needs its directory listed first.
pub enum Lookup<S> {
    Done(Result<FileAttr, i32>),
    List { parent_path: S, child_path: S },
}

impl View for Lookup<String> {
    type V = Lookup<Seq<char>>;

    open spec fn view(&self) -> Lookup<Seq<char>> {
        match self {
            Lookup::Done(r) => Lookup::Done(*r),
            Lookup::List { parent_path, child_path } => Lookup::List {
                parent_path: parent_path@,
                child_path: child_path@,
            },
        }
    }
}

/// The first entry of that path.
pub open spec fn find_entry(entries: Seq<ListEntryView>, path: Seq<char>) -> Option<ListEntryView>
    decreases entries.len(),
{
    if entries.len() == 0 {
        None
    } else if entries[0].path == path {
        Some(entries[0])
    } else {
        find_entry(entries.drop_first(), path)
    }
}

impl FsView {
    /// How a lookup begins: from what is known, if anything is.
    pub open spec fn lookup(self, parent: u64, name: Option<Seq<char>>, owner: Owner) -> Lookup<
        Seq<char>,
    > {
        match (name, self.paths.path(parent)) {
            (None, _) => Lookup::Done(Err(EINVAL)),
            (_, None) => Lookup::Done(Err(ENOENT)),
            (Some(name), Some(parent_path)) => {
                let child_path = entry_path(parent_path, name);
                match self.paths.inode(child_path) {
                    Some(ino) => if self.attrs.contains_key(ino) {
                        Lookup::Done(Ok(shown(ino, self.attrs[ino], owner)))
                    } else {
                        Lookup::List { parent_path, child_path }
                    },
                    None => Lookup::List { parent_path, child_path },
                }
            },
        }
    }

    /// The state after a directory was listed, or could not be.
    pub open spec fn after_listing(
        self,
        listing: Result<Seq<ListEntryView>, IpcErrorView>,
    ) -> FsView {
        match listing {
            Err(_) => self,
            Ok(entries) => self.populated(entries),
        }
    }

    /// There is room for what was listed.
    pub open spec fn fits_listing(
        self,
        listing: Result<Seq<ListEntryView>, IpcErrorView>,
    ) -> bool {
        listing matches Ok(entries) ==> self.fits(entries.len())
    }

    /// How a lookup ends once the directory was listed.
    pub open spec fn lookup_listed(
        self,
        child_path: Seq<char>,
        listing: Result<Seq<ListEntryView>, IpcErrorView>,
        owner: Owner,
    ) -> Result<FileAttr, i32> {
        match listing {
            Err(e) => Err(errno_of(e)),
            Ok(entries) => match find_entry(entries, child_path) {
                None => Err(ENOENT),
                Some(e) => Ok(
                    shown(self.populated(entries).paths.inode_of(child_path), attr_of(e), owner),
                ),
            },
        }
    }

    /// What is known of an inode, or which directory to list to know more.
    pub open spec fn fetch_attr(self, inode: u64) -> Fetch<CachedAttr, Seq<char>> {
        match self.known(inode) {
            Some(a) => Fetch::Done(Ok(a)),
            None => match self.paths.path(inode) {
                None => Fetch::Done(Err(ENOENT)),
                Some(path) => Fetch::List { prefix: parent_of(path) },
            },
        }
    }

    /// What is known of an inode once its directory was listed.
    pub open spec fn fetched_attr(
        self,
        inode: u64,
        listing: Result<Seq<ListEntryView>, IpcErrorView>,
    ) -> Result<CachedAttr, i32> {
        match listing {
            Err(e) => Err(errno_of(e)),
            Ok(entries) => {
                let after = self.populated(entries);
                if after.attrs.contains_key(inode) {
                    Ok(after.attrs[inode])
                } else {
                    Err(ENOENT)
                }
            },
        }
    }

    /// What the kernel is shown of an inode, or which directory to list first.
    pub open spec fn getattr(self, inode: u64, owner: Owner) -> Fetch<FileAttr, Seq<char>> {
        match self.fetch_attr(inode) {
            Fetch::Done(Ok(a)) => Fetch::Done(Ok(shown(inode, a, owner))),
            Fetch::Done(Err(e)) => Fetch::Done(Err(e)),
            Fetch::List { prefix } => Fetch::List { prefix },
        }
    }

    /// What the kernel is shown of an inode once its directory was listed.
    pub open spec fn getattr_listed(
        self,
        inode: u64,
        listing: Result<Seq<ListEntryView>, IpcErrorView>,
        owner: Owner,
    ) -> Result<FileAttr, i32> {
        match self.fetched_attr(inode, listing) {
            Ok(a) => Ok(shown(inode, a, owner)),
            Err(e) => Err(e),
        }
    }
}

impl UnidriveFs {
    /// The path of an inode, `ENOENT` where it has none.
    pub fn resolve(&self, inode: u64) -> (r: Result<String, i32>)
        ensures
            match r {
                Ok(path) => self@.paths.path(inode) == Some(path@),
                Err(e) => self@.paths.path(inode) is None && e == ENOENT,
            },
    {
        match self.paths.path_for(inode) {
            Some(path) => Ok(path.to_owned()),
            None => Err(ENOENT),
        }
    }

    /// Looks `name` up in the directory `parent`. A name that is no text is
    /// `None`.
    pub fn lookup(&self, parent: u64, name: Option<&str>, owner: Owner) -> (r: Lookup<String>)
        ensures
            r@ == self@.lookup(
                parent,
                match name {
                    Some(s) => Some(s@),
                    None => None,
                },
                owner,
            ),
    {
        let name = match name {
            Some(name) => name,
            None => return Lookup::Done(Err(EINVAL)),
        };
        let parent_path = match self.resolve(parent) {
            Ok(path) => path,
            Err(e) => return Lookup::Done(Err(e)),
        };
        let child_path = join_entry(parent_path.as_str(), name);
        if let Some(ino) = self.paths.inode_for(child_path.as_str()) {
            if let Some(a) = self.attrs.get(&ino) {
                return Lookup::Done(Ok(file_attr_from_cached(ino, a, owner)));
            }
        }
        Lookup::List { parent_path, child_path }
    }

    /// Ends a lookup for which the directory was listed.
    #[verifier::loop_isolation(false)]
    pub fn lookup_listed(
        &mut self,
        child_path: &str,
        listing: Result<Vec<ListEntry>, IpcError>,
        owner: Owner,
    ) -> (r: Result<FileAttr, i32>)
        requires
            old(self)@.wf(),
            old(self)@.fits_listing(listing_view(listing)),
        ensures
            final(self)@.wf(),
            final(self)@ == old(self)@.after_listing(listing_view(listing)),
            r == old(self)@.lookup_listed(child_path@, listing_view(listing), owner),
    {
        let entries = match listing {
            Ok(entries) => entries,
            Err(e) => return Err(ipc_error_to_errno(&e)),
        };
        let ghost all = entry_views(entries@);
        let listed = self.populate_from_list(entries);
        assert(numbered_views(listed@).len() == listed@.len());
        assert(numbered(self@.paths, all).len() == all.len());
        let mut i: usize = 0;
        assert(all.skip(0) =~= all);
        while i < listed.len()
            invariant
                i <= listed@.len(),
                find_entry(all, child_path@) == find_entry(all.skip(i as int), child_path@),
            decreases listed@.len() - i,
        {
            proof {
                assert(numbered_views(listed@)[i as int] == numbered(self@.paths, all)[i as int]);
            }
            if same(listed[i].1.path.as_str(), child_path) {
                let a = CachedAttr::from_entry(&listed[i].1);
                return Ok(file_attr_from_cached(listed[i].0, &a, owner));
            }
            assert(all.skip(i as int).drop_first() =~= all.skip(i + 1));
            i = i + 1;
        }
        Err(ENOENT)
    }

    /// What is known of an inode, or which directory to list to know more.
    pub fn get_or_fetch_attr(&self, inode: u64) -> (r: Fetch<CachedAttr, String>)
        ensures
            r@ == self@.fetch_attr(inode),
    {
        if inode == ROOT_INODE {
            return Fetch::Done(
                Ok(CachedAttr { size: 0, mtime_ms: 0, is_folder: true, is_hydrated: false }),
            );
        }
        if let Some(a) = self.attrs.get(&inode) {
            return Fetch::Done(Ok(*a));
        }
        match self.resolve(inode) {
            Err(e) => Fetch::Done(Err(e)),
            Ok(path) => Fetch::List { prefix: parent_prefix(path.as_str()) },
        }
    }

    /// What is known of an inode once its directory was listed.
    pub fn fetched_attr(&mut self, inode: u64, listing: Result<Vec<ListEntry>, IpcError>) -> (r:
        Result<CachedAttr, i32>)
        requires
            old(self)@.wf(),
            old(self)@.fits_listing(listing_view(listing)),
        ensures
            final(self)@.wf(),
            final(self)@ == old(self)@.after_listing(listing_view(listing)),
            r == old(self)@.fetched_attr(inode, listing_view(listing)),
    {
        match listing {
            Err(e) => Err(ipc_error_to_errno(&e)),
            Ok(entries) => {
                let _listed = self.populate_from_list(entries);
                match self.attrs.get(&inode) {
                    Some(a) => Ok(*a),
                    None => Err(ENOENT),
                }
            },
        }
    }

    /// Answers `getattr`, or says which directory to list first.
    pub fn getattr(&self, inode: u64, owner: Owner) -> (r: Fetch<FileAttr, String>)
        ensures
            r@ == self@.getattr(inode, owner),
    {
        match self.get_or_fetch_attr(inode) {
            Fetch::Done(Ok(a)) => Fetch::Done(Ok(file_attr_from_cached(inode, &a, owner))),
            Fetch::Done(Err(e)) => Fetch::Done(Err(e)),
            Fetch::List { prefix } => Fetch::List { prefix },
        }
    }

    /// Ends a `getattr` for which a directory was listed.
    pub fn getattr_listed(
        &mut self,
        inode: u64,
        listing: Result<Vec<ListEntry>, IpcError>,
        owner: Owner,
    ) -> (r: Result<FileAttr, i32>)
        requires
            old(self)@.wf(),
            old(self)@.fits_listing(listing_view(listing)),
        ensures
            final(self)@.wf(),
            final(self)@ == old(self)@.after_listing(listing_view(listing)),
            r == old(self)@.getattr_listed(inode, listing_view(listing), owner),
    {
        match self.fetched_attr(inode, listing) {
            Ok(a) => Ok(file_attr_from_cached(inode, &a, owner)),
            Err(e) => Err(e),
        }
    }
}

/// The last entry of that path.
pub open spec fn last_entry(entries: Seq<ListEntryView>, path: Seq<char>) -> Option<ListEntryView>
    decreases entries.len(),
{
    if entries.len() == 0 {
        None
    } else if entries.last().path == path {
        Some(entries.last())
    } else {
        last_entry(entries.drop_last(), path)
    }
}

proof fn lemma_fetched(v: FsView, entries: Seq<ListEntryView>, inode: u64)
    requires
        v.wf(),
        v.fits(entries.len()),
        v.paths.paths.contains_key(inode),
    ensures
        v.populated(entries).paths.path(inode) == v.paths.path(inode),
        match last_entry(entries, v.paths.paths[inode]) {
            Some(e) => v.populated(entries).attrs.contains_key(inode) && v.populated(
                entries,
            ).attrs[inode] == attr_of(e),
            None => v.populated(entries).attrs.contains_key(inode) == v.attrs.contains_key(inode)
                && v.populated(entries).attrs[inode] == v.attrs[inode],
        },
    decreases entries.len(),
{
    if entries.len() > 0 {
        let rest = entries.drop_last();
        lemma_fetched(v, rest, inode);
        lemma_populated(v, rest);
        assert(v.populated(rest).paths.inodes.contains_key(v.paths.paths[inode]));
    }
}

/// The root is a directory of size 0. What is known of another inode is what
/// it has; neither has to be asked for. What has no path and of which nothing
/// is known does not exist. For anything else the directory that holds it is
/// listed once: what that says of the path, the last entry counting where it
/// says it twice, is what the inode has, and where it says nothing, the inode
/// has nothing.
pub proof fn attributes_are_known_or_listed(
    v: FsView,
    inode: u64,
    later: FsView,
    entries: Seq<ListEntryView>,
)
    requires
        later.wf(),
        later.fits(entries.len()),
    ensures
        inode == ROOT_INODE ==> v.fetch_attr(inode) == Fetch::<CachedAttr, Seq<char>>::Done(
            Ok(root_attr()),
        ),
        inode != ROOT_INODE && v.attrs.contains_key(inode) ==> v.fetch_attr(inode) == Fetch::<
            CachedAttr,
            Seq<char>,
        >::Done(Ok(v.attrs[inode])),
        inode != ROOT_INODE && !v.attrs.contains_key(inode) && !v.paths.paths.contains_key(inode)
            ==> v.fetch_attr(inode) == Fetch::<CachedAttr, Seq<char>>::Done(Err(ENOENT)),
        inode != ROOT_INODE && !v.attrs.contains_key(inode) && v.paths.paths.contains_key(inode)
            ==> v.fetch_attr(inode) == (Fetch::<CachedAttr, Seq<char>>::List {
            prefix: parent_of(v.paths.paths[inode]),
        }),
        later.paths.paths.contains_key(inode) ==> match last_entry(
            entries,
            later.paths.paths[inode],
        ) {
            Some(e) => later.fetched_attr(inode, Ok(entries)) == Ok::<CachedAttr, i32>(attr_of(e)),
            None => !later.attrs.contains_key(inode) ==> later.fetched_attr(inode, Ok(entries))
                == Err::<CachedAttr, i32>(ENOENT),
        },
{
    if later.paths.paths.contains_key(inode) {
        lemma_fetched(later, entries, inode);
    }
}

}
