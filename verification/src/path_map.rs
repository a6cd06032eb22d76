//! The numbering of paths by inode.

use std::collections::HashMap;
use vstd::hash_map::StringHashMap;
use vstd::prelude::*;

verus! {

broadcast use vstd::std_specs::hash::group_hash_axioms;

/// The FUSE protocol reserves inode 1 for the root.
pub const ROOT_INODE: u64 = 1;

/// A two-way map between inodes and paths.
///
/// The root is the empty path with inode [`ROOT_INODE`]. Other paths get
/// inodes in rising order from `ROOT_INODE + 1` on, and no inode is given out
/// twice.
pub struct PathMap {
    next: u64,
    path_to_inode: StringHashMap<u64>,
    inode_to_path: HashMap<u64, String>,
}

/// What a [`PathMap`] stands for: the next inode to give out, and both halves
/// of the mapping.
#[verifier::ext_equal]
pub struct PathMapView {
    pub next: u64,
    pub inodes: Map<Seq<char>, u64>,
    pub paths: Map<u64, Seq<char>>,
}

impl PathMapView {
    /// The two halves are each other's inverse, and every inode in use was
    /// given out.
    pub open spec fn wf(self) -> bool {
        &&& self.next > ROOT_INODE
        &&& forall|p: Seq<char>| #[trigger]
            self.inodes.contains_key(p) ==> self.paths.contains_key(self.inodes[p])
                && self.paths[self.inodes[p]] == p
        &&& forall|i: u64| #[trigger]
            self.paths.contains_key(i) ==> self.inodes.contains_key(self.paths[i])
                && self.inodes[self.paths[i]] == i && i < self.next
    }

    /// The map after `path` was interned.
    pub open spec fn interned(self, path: Seq<char>) -> PathMapView {
        if self.inodes.contains_key(path) {
            self
        } else {
            PathMapView {
                next: (self.next + 1) as u64,
                inodes: self.inodes.insert(path, self.next),
                paths: self.paths.insert(self.next, path),
            }
        }
    }

    /// The inode that `path` has, or gets when it is interned.
    pub open spec fn inode_of(self, path: Seq<char>) -> u64 {
        if self.inodes.contains_key(path) {
            self.inodes[path]
        } else {
            self.next
        }
    }

    /// The map after `path` was forgotten.
    pub open spec fn forgotten(self, path: Seq<char>) -> PathMapView {
        if self.inodes.contains_key(path) {
            PathMapView {
                next: self.next,
                inodes: self.inodes.remove(path),
                paths: self.paths.remove(self.inodes[path]),
            }
        } else {
            self
        }
    }

    /// The map after what was at `from` moved to `to`: the inode of `from`
    /// now belongs to `to`, and what `to` named before is forgotten.
    pub open spec fn renamed(self, from: Seq<char>, to: Seq<char>) -> PathMapView {
        if self.inodes.contains_key(from) && from != to {
            let rest = self.forgotten(to);
            PathMapView {
                next: self.next,
                inodes: rest.inodes.remove(from).insert(to, self.inodes[from]),
                paths: rest.paths.insert(self.inodes[from], to),
            }
        } else {
            self
        }
    }

    /// What is looked up under an inode.
    pub open spec fn path(self, inode: u64) -> Option<Seq<char>> {
        if self.paths.contains_key(inode) {
            Some(self.paths[inode])
        } else {
            None
        }
    }

    /// What is looked up under a path.
    pub open spec fn inode(self, path: Seq<char>) -> Option<u64> {
        if self.inodes.contains_key(path) {
            Some(self.inodes[path])
        } else {
            None
        }
    }
}

impl View for PathMap {
    type V = PathMapView;

    closed spec fn view(&self) -> PathMapView {
        PathMapView {
            next: self.next,
            inodes: self.path_to_inode@,
            paths: self.inode_to_path@.map_values(|s: String| s@),
        }
    }
}

/// A map that holds the root alone.
pub open spec fn root_only() -> PathMapView {
    PathMapView {
        next: (ROOT_INODE + 1) as u64,
        inodes: map![""@ => ROOT_INODE],
        paths: map![ROOT_INODE => ""@],
    }
}

impl PathMap {
    /// A map that holds the root alone.
    pub fn new() -> (r: PathMap)
        ensures
            r@ == root_only(),
            r@.wf(),
    {
        let mut path_to_inode = StringHashMap::new();
        let mut inode_to_path = HashMap::new();
        path_to_inode.insert("".to_owned(), ROOT_INODE);
        inode_to_path.insert(ROOT_INODE, "".to_owned());
        let r = PathMap { next: ROOT_INODE + 1, path_to_inode, inode_to_path };
        assert(r@ =~= root_only());
        r
    }

    /// The root's inode.
    pub fn root_inode(&self) -> (r: u64)
        ensures
            r == ROOT_INODE,
    {
        ROOT_INODE
    }

    /// How many more paths can be interned.
    pub fn room(&self) -> (r: u64)
        ensures
            r == u64::MAX - self@.next,
    {
        u64::MAX - self.next
    }

    /// The inode of `path`, which gets the next one if it has none yet.
    pub fn intern(&mut self, path: &str) -> (r: u64)
        requires
            old(self)@.wf(),
            old(self)@.inodes.contains_key(path@) || old(self)@.next < u64::MAX,
        ensures
            final(self)@.wf(),
            final(self)@ == old(self)@.interned(path@),
            r == old(self)@.inode_of(path@),
    {
        if let Some(inode) = self.path_to_inode.get(path) {
            return *inode;
        }
        let inode: u64 = self.next;
        self.next = self.next + 1;
        self.path_to_inode.insert(path.to_owned(), inode);
        self.inode_to_path.insert(inode, path.to_owned());
        assert(self@ =~= old(self)@.interned(path@));
        inode
    }

    /// The path of `inode`.
    pub fn path_for(&self, inode: u64) -> (r: Option<&str>)
        ensures
            match r {
                Some(path) => self@.path(inode) == Some(path@),
                None => self@.path(inode) is None,
            },
    {
        match self.inode_to_path.get(&inode) {
            Some(path) => Some(path.as_str()),
            None => None,
        }
    }

    /// The inode of `path`.
    pub fn inode_for(&self, path: &str) -> (r: Option<u64>)
        ensures
            r == self@.inode(path@),
    {
        match self.path_to_inode.get(path) {
            Some(inode) => Some(*inode),
            None => None,
        }
    }

    /// Drops both halves of the mapping of `path` and says which inode it had.
    /// The inode is not given out again.
    pub fn forget(&mut self, path: &str) -> (r: Option<u64>)
        requires
            old(self)@.wf(),
        ensures
            final(self)@.wf(),
            final(self)@ == old(self)@.forgotten(path@),
            r == old(self)@.inode(path@),
    {
        let inode: u64 = match self.path_to_inode.get(path) {
            Some(inode) => *inode,
            None => return None,
        };
        self.path_to_inode.remove(path);
        self.inode_to_path.remove(&inode);
        assert(self@ =~= old(self)@.forgotten(path@));
        Some(inode)
    }

    /// Moves the inode of `from` to the path `to`, and says which inode it is.
    /// What `to` named before is forgotten.
    pub fn rename(&mut self, from: &str, to: &str) -> (r: Option<u64>)
        requires
            old(self)@.wf(),
        ensures
            final(self)@.wf(),
            final(self)@ == old(self)@.renamed(from@, to@),
            r == old(self)@.inode(from@),
    {
        let inode: u64 = match self.path_to_inode.get(from) {
            Some(inode) => *inode,
            None => return None,
        };
        if crate::text::same(from, to) {
            return Some(inode);
        }
        self.forget(to);
        self.path_to_inode.remove(from);
        self.path_to_inode.insert(to.to_owned(), inode);
        self.inode_to_path.insert(inode, to.to_owned());
        assert(self@ =~= old(self)@.renamed(from@, to@));
        Some(inode)
    }
}

impl Default for PathMap {
    /// A map that holds the root alone.
    fn default() -> (r: PathMap)
        ensures
            r@ == root_only(),
            r@.wf(),
    {
        PathMap::new()
    }
}

/// Looking up an interned path, and the inode it got, gives both back.
pub proof fn interned_is_found(m: PathMapView, path: Seq<char>)
    requires
        m.wf(),
        m.inodes.contains_key(path) || m.next < u64::MAX,
    ensures
        m.interned(path).inode(path) == Some(m.inode_of(path)),
        m.interned(path).path(m.inode_of(path)) == Some(path),
{
}

/// Interning a path twice gives the same inode and changes nothing more.
pub proof fn intern_is_idempotent(m: PathMapView, path: Seq<char>)
    requires
        m.wf(),
    ensures
        m.interned(path).inode_of(path) == m.inode_of(path),
        m.interned(path).interned(path) == m.interned(path),
{
}

/// Different paths have different inodes.
pub proof fn inodes_are_distinct(m: PathMapView, p: Seq<char>, q: Seq<char>)
    requires
        m.wf(),
        m.inodes.contains_key(p),
        m.inodes.contains_key(q),
        p != q,
    ensures
        m.inodes[p] != m.inodes[q],
{
}

/// Interning a path leaves every other path and inode as it was.
pub proof fn intern_keeps_the_rest(m: PathMapView, path: Seq<char>, other: Seq<char>)
    requires
        m.wf(),
        m.next < u64::MAX,
        other != path,
    ensures
        m.interned(path).inode(other) == m.inode(other),
        m.inodes.contains_key(other) ==> m.interned(path).path(m.inodes[other]) == Some(other),
{
}

/// An inode once given out is never given out again: a path interned after
/// another was forgotten gets a new one.
pub proof fn inodes_are_not_recycled(m: PathMapView, path: Seq<char>, later: Seq<char>)
    requires
        m.wf(),
        m.inodes.contains_key(path),
        !m.forgotten(path).inodes.contains_key(later),
    ensures
        m.forgotten(path).next == m.next,
        m.forgotten(path).inode_of(later) != m.inodes[path],
        m.forgotten(path).inode_of(later) == m.next,
{
}

/// Forgetting a path drops both halves of its mapping, and a second time
/// changes nothing.
pub proof fn forgotten_is_gone(m: PathMapView, path: Seq<char>)
    requires
        m.wf(),
    ensures
        m.forgotten(path).inode(path) is None,
        m.inodes.contains_key(path) ==> m.forgotten(path).path(m.inodes[path]) is None,
        m.forgotten(path).forgotten(path) == m.forgotten(path),
{
}

/// A renamed path keeps its inode, its old name is gone, and so is what the
/// new name stood for.
pub proof fn rename_preserves_the_inode(m: PathMapView, from: Seq<char>, to: Seq<char>)
    requires
        m.wf(),
        m.inodes.contains_key(from),
        from != to,
    ensures
        m.renamed(from, to).inode(to) == m.inode(from),
        m.renamed(from, to).path(m.inodes[from]) == Some(to),
        m.renamed(from, to).inode(from) is None,
        m.inodes.contains_key(to) ==> m.renamed(from, to).path(m.inodes[to]) is None,
        m.renamed(from, to).next == m.next,
{
}

/// A path that is interned for the first time gets the next inode, and the one
/// after is next; a path that has one keeps it, and nothing changes. A fresh map
/// holds the empty path under inode 1 and nothing else, and 2 is next.
pub proof fn inodes_are_given_out_in_order(m: PathMapView, path: Seq<char>, other: Seq<char>)
    requires
        m.next < u64::MAX,
    ensures
        !m.inodes.contains_key(path) ==> m.inode_of(path) == m.next && m.interned(path).next
            == m.next + 1,
        m.inodes.contains_key(path) ==> m.inode_of(path) == m.inodes[path] && m.interned(path) == m,
        root_only().next == 2,
        root_only().inode(Seq::empty()) == Some(1u64),
        root_only().path(1) == Some(Seq::<char>::empty()),
        other.len() > 0 ==> root_only().inode(other) is None,
{
    reveal_strlit("");
    assert(""@ =~= Seq::empty());
}

/// Forgetting a path leaves every other path and inode as it was, and gives no
/// number back.
pub proof fn forget_keeps_the_rest(m: PathMapView, path: Seq<char>, other: Seq<char>, i: u64)
    requires
        m.wf(),
        other != path,
        m.inode(path) != Some(i),
    ensures
        m.forgotten(path).inode(other) == m.inode(other),
        m.forgotten(path).path(i) == m.path(i),
        m.forgotten(path).next == m.next,
{
}

/// Renaming a path leaves every path but the old and the new one as it was; and
/// renaming it back gives the old name back its inode.
pub proof fn rename_keeps_the_rest(
    m: PathMapView,
    from: Seq<char>,
    to: Seq<char>,
    other: Seq<char>,
)
    requires
        m.wf(),
        m.inodes.contains_key(from),
        from != to,
        other != from,
        other != to,
    ensures
        m.renamed(from, to).inode(other) == m.inode(other),
        m.renamed(from, to).renamed(to, from).inode(from) == m.inode(from),
        m.renamed(from, from) == m,
        !m.inodes.contains_key(to) ==> m.renamed(to, from) == m,
{
}

/// What is looked up is what the map holds.
pub proof fn lookups_find_what_is_held(m: PathMapView, path: Seq<char>, inode: u64)
    ensures
        m.path(inode) == Some(path) <==> m.paths.contains_key(inode) && m.paths[inode] == path,
        m.path(inode) is None <==> !m.paths.contains_key(inode),
        m.inode(path) == Some(inode) <==> m.inodes.contains_key(path) && m.inodes[path] == inode,
        m.inode(path) is None <==> !m.inodes.contains_key(path),
{
}

}
