//! Reading directories.

use crate::fuse_fs::attrs::{
    attr_of, file_attr_from_cached, kind, kind_of, shown, CachedAttr, FileAttr, FileType, Owner,
};
use crate::fuse_fs::errno::{errno_of, ipc_error_to_errno, ENOENT};
use crate::fuse_fs::listing::{lemma_populated, listing_view, numbered, numbered_views, Fetch};
use crate::fuse_fs::names::{basename, basename_of};
use crate::fuse_fs::{FsView, UnidriveFs};
use crate::ipc::{IpcError, IpcErrorView, ListEntry, ListEntryView};
use crate::path_map::PathMapView;
use vstd::prelude::*;
use vstd::utf8::encode_utf8;

verus! {

/// The longest name, in bytes, that a directory entry can have.
pub const NAME_MAX: usize = 255;

/// One row of a directory, with its name in `S`. Its offset is where reading
/// goes on after it.
#[derive(Debug)]
pub struct DirectoryEntry<S> {
    pub inode: u64,
    pub kind: FileType,
    pub name: S,
    pub offset: i64,
}

impl View for DirectoryEntry<String> {
    type V = DirectoryEntry<Seq<char>>;

    open spec fn view(&self) -> DirectoryEntry<Seq<char>> {
        DirectoryEntry {
            inode: self.inode,
            kind: self.kind,
            name: self.name@,
            offset: self.offset,
        }
    }
}

/// A row of a directory and the attributes of what it names.
#[derive(Debug)]
pub struct DirectoryEntryPlus<S> {
    pub entry: DirectoryEntry<S>,
    pub attr: FileAttr,
}

impl View for DirectoryEntryPlus<String> {
    type V = DirectoryEntryPlus<Seq<char>>;

    open spec fn view(&self) -> DirectoryEntryPlus<Seq<char>> {
        DirectoryEntryPlus { entry: self.entry@, attr: self.attr }
    }
}

/// The last part of `path` can be the name of a directory entry.
pub open spec fn representable(path: Seq<char>) -> bool {
    encode_utf8(basename_of(path)).len() <= NAME_MAX
}

/// The listed entries whose names can be shown, in order.
pub open spec fn kept(listed: Seq<(u64, ListEntryView)>) -> Seq<(u64, ListEntryView)>
    decreases listed.len(),
{
    if listed.len() == 0 {
        Seq::empty()
    } else if representable(listed.last().1.path) {
        kept(listed.drop_last()).push(listed.last())
    } else {
        kept(listed.drop_last())
    }
}

/// The row of a directory itself, or of its parent, which is not told apart.
pub open spec fn dot_row(inode: u64, name: Seq<char>, offset: i64) -> DirectoryEntry<Seq<char>> {
    DirectoryEntry { inode, kind: FileType::Directory, name, offset }
}

/// The row of a listed entry.
pub open spec fn row(x: (u64, ListEntryView), offset: int) -> DirectoryEntry<Seq<char>> {
    DirectoryEntry {
        inode: x.0,
        kind: kind_of(x.1.folder),
        name: basename_of(x.1.path),
        offset: offset as i64,
    }
}

/// All rows of a directory: itself, its parent, and what was listed in it as
/// far as that can be shown. Each row's offset is its position plus 1.
pub open spec fn directory(inode: u64, listed: Seq<(u64, ListEntryView)>) -> Seq<
    DirectoryEntry<Seq<char>>,
> {
    seq![dot_row(inode, "."@, 1), dot_row(inode, ".."@, 2)] + Seq::new(
        kept(listed).len(),
        |i: int| row(kept(listed)[i], i + 3),
    )
}

/// All rows of a directory with attributes.
pub open spec fn directory_plus(
    inode: u64,
    attr: CachedAttr,
    listed: Seq<(u64, ListEntryView)>,
    owner: Owner,
) -> Seq<DirectoryEntryPlus<Seq<char>>> {
    let rows = directory(inode, listed);
    Seq::new(
        rows.len(),
        |i: int|
            DirectoryEntryPlus {
                entry: rows[i],
                attr: if i < 2 {
                    shown(inode, attr, owner)
                } else {
                    shown(kept(listed)[i - 2].0, attr_of(kept(listed)[i - 2].1), owner)
                },
            },
    )
}

/// What is left of `rows` from an offset on. A negative one counts as 0.
pub open spec fn from_offset<T>(rows: Seq<T>, offset: int) -> Seq<T> {
    if offset <= 0 {
        rows
    } else if offset >= rows.len() {
        Seq::empty()
    } else {
        rows.skip(offset)
    }
}

/// The rows as they are seen.
pub open spec fn row_views(rows: Seq<DirectoryEntry<String>>) -> Seq<DirectoryEntry<Seq<char>>> {
    rows.map_values(|r: DirectoryEntry<String>| r@)
}

/// The rows with attributes as they are seen.
pub open spec fn plus_views(rows: Seq<DirectoryEntryPlus<String>>) -> Seq<
    DirectoryEntryPlus<Seq<char>>,
> {
    rows.map_values(|r: DirectoryEntryPlus<String>| r@)
}

proof fn lemma_kept_len(listed: Seq<(u64, ListEntryView)>)
    ensures
        kept(listed).len() <= listed.len(),
    decreases listed.len(),
{
    if listed.len() > 0 {
        lemma_kept_len(listed.drop_last());
    }
}

/// Whether a name can be shown.
fn name_fits(name: &str) -> (r: bool)
    ensures
        r == (encode_utf8(name@).len() <= NAME_MAX),
{
    name.as_bytes().len() <= NAME_MAX
}

/// The rows of a directory from an offset on, with attributes.
pub fn directory_rows_plus(
    inode: u64,
    attr: CachedAttr,
    listed: Vec<(u64, ListEntry)>,
    offset: u64,
    owner: Owner,
) -> (r: Vec<DirectoryEntryPlus<String>>)
    requires
        listed@.len() <= i64::MAX - 3,
    ensures
        plus_views(r@) == from_offset(
            directory_plus(inode, attr, numbered_views(listed@), owner),
            offset as int,
        ),
{
    let ghost all = numbered_views(listed@);
    let own = file_attr_from_cached(inode, &attr, owner);
    let mut rows: Vec<DirectoryEntryPlus<String>> = Vec::new();
    rows.push(
        DirectoryEntryPlus {
            entry: DirectoryEntry {
                inode,
                kind: FileType::Directory,
                name: ".".to_owned(),
                offset: 1,
            },
            attr: own,
        },
    );
    rows.push(
        DirectoryEntryPlus {
            entry: DirectoryEntry {
                inode,
                kind: FileType::Directory,
                name: "..".to_owned(),
                offset: 2,
            },
            attr: own,
        },
    );
    let mut i: usize = 0;
    assert(all.take(0) =~= Seq::empty());
    assert(plus_views(rows@) =~= directory_plus(inode, attr, all.take(0), owner));
    while i < listed.len()
        invariant
            i <= listed@.len() <= i64::MAX - 3,
            all == numbered_views(listed@),
            plus_views(rows@) == directory_plus(inode, attr, all.take(i as int), owner),
        decreases listed@.len() - i,
    {
        let ghost before = rows@;
        proof {
            assert(all.take(i + 1).drop_last() =~= all.take(i as int));
            assert(all.take(i + 1).last() == (listed@[i as int].0, listed@[i as int].1@));
            lemma_kept_len(all.take(i as int));
            assert(plus_views(before).len() == before.len());
        }
        let e = &listed[i].1;
        let name = basename(e.path.as_str());
        if name_fits(name.as_str()) {
            let offset: i64 = rows.len() as i64 + 1;
            let a = CachedAttr::from_entry(e);
            rows.push(
                DirectoryEntryPlus {
                    entry: DirectoryEntry {
                        inode: listed[i].0,
                        kind: kind(e.folder),
                        name,
                        offset,
                    },
                    attr: file_attr_from_cached(listed[i].0, &a, owner),
                },
            );
            proof {
                let now = directory_plus(inode, attr, all.take(i + 1), owner);
                let was = directory_plus(inode, attr, all.take(i as int), owner);
                assert(plus_views(rows@) =~= plus_views(before).push(rows@.last()@));
                assert(now =~= was.push(rows@.last()@));
            }
        }
        i = i + 1;
    }
    assert(all.take(all.len() as int) =~= all);
    let ghost whole = rows@;
    if offset >= rows.len() as u64 {
        let r: Vec<DirectoryEntryPlus<String>> = Vec::new();
        assert(plus_views(whole).len() == whole.len());
        assert(plus_views(r@) =~= Seq::empty());
        r
    } else {
        let r = rows.split_off(offset as usize);
        assert(plus_views(r@) =~= from_offset(plus_views(whole), offset as int));
        r
    }
}

/// The rows of a directory from an offset on.
pub fn directory_rows(inode: u64, listed: Vec<(u64, ListEntry)>, offset: i64) -> (r: Vec<
    DirectoryEntry<String>,
>)
    requires
        listed@.len() <= i64::MAX - 3,
    ensures
        row_views(r@) == from_offset(
            directory(inode, numbered_views(listed@)),
            offset as int,
        ),
{
    let ghost all = numbered_views(listed@);
    let mut rows: Vec<DirectoryEntry<String>> = Vec::new();
    rows.push(
        DirectoryEntry { inode, kind: FileType::Directory, name: ".".to_owned(), offset: 1 },
    );
    rows.push(
        DirectoryEntry { inode, kind: FileType::Directory, name: "..".to_owned(), offset: 2 },
    );
    let mut i: usize = 0;
    assert(all.take(0) =~= Seq::empty());
    assert(row_views(rows@) =~= directory(inode, all.take(0)));
    while i < listed.len()
        invariant
            i <= listed@.len() <= i64::MAX - 3,
            all == numbered_views(listed@),
            row_views(rows@) == directory(inode, all.take(i as int)),
        decreases listed@.len() - i,
    {
        let ghost before = rows@;
        proof {
            assert(all.take(i + 1).drop_last() =~= all.take(i as int));
            assert(all.take(i + 1).last() == (listed@[i as int].0, listed@[i as int].1@));
            lemma_kept_len(all.take(i as int));
            assert(row_views(before).len() == before.len());
        }
        let e = &listed[i].1;
        let name = basename(e.path.as_str());
        if name_fits(name.as_str()) {
            let offset: i64 = rows.len() as i64 + 1;
            rows.push(DirectoryEntry { inode: listed[i].0, kind: kind(e.folder), name, offset });
            proof {
                let now = directory(inode, all.take(i + 1));
                let was = directory(inode, all.take(i as int));
                assert(row_views(rows@) =~= row_views(before).push(rows@.last()@));
                assert(now =~= was.push(rows@.last()@));
            }
        }
        i = i + 1;
    }
    assert(all.take(all.len() as int) =~= all);
    let ghost whole = rows@;
    if offset <= 0 {
        return rows;
    }
    if offset as u64 >= rows.len() as u64 {
        let r: Vec<DirectoryEntry<String>> = Vec::new();
        assert(row_views(whole).len() == whole.len());
        assert(row_views(r@) =~= Seq::empty());
        r
    } else {
        let r = rows.split_off(offset as usize);
        assert(row_views(r@) =~= from_offset(row_views(whole), offset as int));
        r
    }
}

impl FsView {
    /// What `readdir` answers once the directory was listed.
    pub open spec fn readdir_listed(
        self,
        parent: u64,
        offset: i64,
        listing: Result<Seq<ListEntryView>, IpcErrorView>,
    ) -> Result<Seq<DirectoryEntry<Seq<char>>>, i32> {
        match listing {
            Err(e) => Err(errno_of(e)),
            Ok(entries) => Ok(
                from_offset(
                    directory(parent, numbered(self.populated(entries).paths, entries)),
                    offset as int,
                ),
            ),
        }
    }
}

impl UnidriveFs {
    /// Begins `readdir`: says which directory to list.
    pub fn readdir(&self, parent: u64) -> (r: Result<String, i32>)
        ensures
            match r {
                Ok(prefix) => self@.paths.path(parent) == Some(prefix@),
                Err(e) => self@.paths.path(parent) is None && e == ENOENT,
            },
    {
        self.resolve(parent)
    }

    /// Ends `readdir` once the directory was listed.
    pub fn readdir_listed(
        &mut self,
        parent: u64,
        offset: i64,
        listing: Result<Vec<ListEntry>, IpcError>,
    ) -> (r: Result<Vec<DirectoryEntry<String>>, i32>)
        requires
            old(self)@.wf(),
            old(self)@.fits_listing(listing_view(listing)),
        ensures
            final(self)@.wf(),
            final(self)@ == old(self)@.after_listing(listing_view(listing)),
            match r {
                Ok(rows) => old(self)@.readdir_listed(parent, offset, listing_view(listing)) == Ok::<
                    Seq<DirectoryEntry<Seq<char>>>,
                    i32,
                >(row_views(rows@)),
                Err(e) => old(self)@.readdir_listed(parent, offset, listing_view(listing)) == Err::<
                    Seq<DirectoryEntry<Seq<char>>>,
                    i32,
                >(e),
            },
    {
        match listing {
            Err(e) => Err(ipc_error_to_errno(&e)),
            Ok(entries) => {
                let listed = self.populate_from_list(entries);
                assert(numbered_views(listed@).len() == listed@.len());
                Ok(directory_rows(parent, listed, offset))
            },
        }
    }

    /// Begins `readdirplus`: says which directory to list.
    pub fn readdirplus(&self, parent: u64) -> (r: Result<String, i32>)
        ensures
            match r {
                Ok(prefix) => self@.paths.path(parent) == Some(prefix@),
                Err(e) => self@.paths.path(parent) is None && e == ENOENT,
            },
    {
        self.resolve(parent)
    }

    /// Goes on with `readdirplus` once the directory was listed: what was
    /// listed, and what is known of the directory itself. Where that is
    /// nothing, [`UnidriveFs::fetched_attr`] takes what its parent lists.
    /// [`directory_rows_plus`] then makes the answer.
    pub fn readdirplus_listed(
        &mut self,
        parent: u64,
        listing: Result<Vec<ListEntry>, IpcError>,
    ) -> (r: Result<(Vec<(u64, ListEntry)>, Fetch<CachedAttr, String>), i32>)
        requires
            old(self)@.wf(),
            old(self)@.fits_listing(listing_view(listing)),
        ensures
            final(self)@.wf(),
            final(self)@ == old(self)@.after_listing(listing_view(listing)),
            match r {
                Ok((listed, own)) => listing_view(listing) matches Ok(entries) && numbered_views(
                    listed@,
                ) == numbered(final(self)@.paths, entries) && listed@.len() == entries.len()
                    && own@ == final(self)@.fetch_attr(parent),
                Err(errno) => listing_view(listing) matches Err(e) && errno == errno_of(e),
            },
    {
        match listing {
            Err(e) => Err(ipc_error_to_errno(&e)),
            Ok(entries) => {
                let listed = self.populate_from_list(entries);
                assert(numbered_views(listed@).len() == listed@.len());
                let own = self.get_or_fetch_attr(parent);
                Ok((listed, own))
            },
        }
    }
}

/// Reading a directory goes on where it stopped: the rows from any row's
/// offset on are exactly the rows that follow it.
pub proof fn offsets_resume(inode: u64, listed: Seq<(u64, ListEntryView)>, i: int)
    requires
        listed.len() <= i64::MAX - 3,
        0 <= i < directory(inode, listed).len(),
    ensures
        directory(inode, listed)[i].offset == i + 1,
        from_offset(
            directory(inode, listed),
            directory(inode, listed)[i].offset as int,
        ) == directory(inode, listed).skip(i + 1),
{
    lemma_kept_len(listed);
    let rows = directory(inode, listed);
    if i + 1 >= rows.len() {
        assert(rows.skip(i + 1) =~= Seq::empty());
    }
}

/// A listed name is shown exactly if it is not too long, whatever else was
/// listed: a name that cannot be shown hides no other.
pub proof fn kept_is_exact(listed: Seq<(u64, ListEntryView)>, x: (u64, ListEntryView))
    ensures
        kept(listed).contains(x) <==> listed.contains(x) && representable(x.1.path),
    decreases listed.len(),
{
    if listed.len() > 0 {
        let rest = listed.drop_last();
        kept_is_exact(rest, x);
        if kept(listed).contains(x) {
            let i = choose|i: int| 0 <= i < kept(listed).len() && kept(listed)[i] == x;
            if i < kept(rest).len() {
                assert(kept(rest)[i] == x);
                let j = choose|j: int| 0 <= j < rest.len() && rest[j] == x;
                assert(listed[j] == x);
            } else {
                assert(listed[listed.len() - 1] == x);
            }
        }
        if listed.contains(x) && representable(x.1.path) {
            let j = choose|j: int| 0 <= j < listed.len() && listed[j] == x;
            if j < listed.len() - 1 {
                assert(rest[j] == x);
                let i = choose|i: int| 0 <= i < kept(rest).len() && kept(rest)[i] == x;
                assert(kept(listed)[i] == x);
            } else {
                assert(kept(listed)[kept(listed).len() - 1] == x);
            }
        }
    }
}

proof fn lemma_kept_is_filtered(paths: PathMapView, entries: Seq<ListEntryView>)
    ensures
        kept(numbered(paths, entries)) == numbered(
            paths,
            entries.filter(|e: ListEntryView| representable(e.path)),
        ),
    decreases entries.len(),
{
    reveal(Seq::filter);
    let fits = |e: ListEntryView| representable(e.path);
    if entries.len() == 0 {
        assert(numbered(paths, entries) =~= Seq::empty());
        assert(numbered(paths, entries.filter(fits)) =~= Seq::empty());
    } else {
        let rest = entries.drop_last();
        lemma_kept_is_filtered(paths, rest);
        assert(numbered(paths, entries).drop_last() =~= numbered(paths, rest));
        assert(numbered(paths, rest.filter(fits).push(entries.last())) =~= numbered(
            paths,
            rest.filter(fits),
        ).push((paths.inode_of(entries.last().path), entries.last())));
    }
}

/// A directory that was listed shows itself and its parent, both with its own
/// inode and attributes, and then each listed entry whose name is not too long,
/// in the order of the listing: by its name and kind, under the inode that its
/// path has, with the attributes that it was listed with. From an offset on it
/// shows that without so many of the first rows. What is known of the directory
/// itself does not have to be asked for.
pub proof fn directory_shows_what_is_listed(
    v: FsView,
    parent: u64,
    entries: Seq<ListEntryView>,
    own: CachedAttr,
    owner: Owner,
    offset: nat,
)
    requires
        v.wf(),
        v.fits(entries.len()),
    ensures
        ({
            let after = v.populated(entries);
            let listed = numbered(after.paths, entries);
            let visible = entries.filter(|e: ListEntryView| representable(e.path));
            let rows = directory_plus(parent, own, listed, owner);
            &&& after.known(parent) matches Some(a) ==> after.fetch_attr(parent) == Fetch::<
                CachedAttr,
                Seq<char>,
            >::Done(Ok(a))
            &&& rows.len() == visible.len() + 2
            &&& rows[0].entry == dot_row(parent, "."@, 1)
            &&& rows[1].entry == dot_row(parent, ".."@, 2)
            &&& rows[0].attr == shown(parent, own, owner)
            &&& rows[1].attr == shown(parent, own, owner)
            &&& forall|i: int| 0 <= i < visible.len() ==> {
                let e = #[trigger] visible[i];
                let r = rows[i + 2];
                &&& r.entry.name == basename_of(e.path)
                &&& r.entry.kind == kind_of(e.folder)
                &&& r.entry.offset == i + 3
                &&& after.paths.inode(e.path) == Some(r.entry.inode)
                &&& r.attr == shown(r.entry.inode, attr_of(e), owner)
            }
            &&& directory(parent, listed) == rows.map_values(
                |r: DirectoryEntryPlus<Seq<char>>| r.entry,
            )
            &&& from_offset(rows, offset as int) == if offset < rows.len() {
                rows.skip(offset as int)
            } else {
                Seq::empty()
            }
        }),
{
    let after = v.populated(entries);
    let listed = numbered(after.paths, entries);
    let fits = |e: ListEntryView| representable(e.path);
    let visible = entries.filter(fits);
    let rows = directory_plus(parent, own, listed, owner);
    lemma_populated(v, entries);
    lemma_kept_is_filtered(after.paths, entries);
    lemma_kept_len(listed);
    assert(kept(listed).len() == visible.len());
    assert forall|i: int| 0 <= i < visible.len() implies {
        let e = #[trigger] visible[i];
        let r = rows[i + 2];
        &&& r.entry.name == basename_of(e.path)
        &&& r.entry.kind == kind_of(e.folder)
        &&& r.entry.offset == i + 3
        &&& after.paths.inode(e.path) == Some(r.entry.inode)
        &&& r.attr == shown(r.entry.inode, attr_of(e), owner)
    } by {
        assert(kept(listed)[i] == (after.paths.inode_of(visible[i].path), visible[i]));
        entries.lemma_filter_contains_rev(fits, visible[i]);
        let j = choose|j: int| 0 <= j < entries.len() && entries[j] == visible[i];
        assert(after.paths.inodes.contains_key(entries[j].path));
    }
    assert(directory(parent, listed) =~= rows.map_values(
        |r: DirectoryEntryPlus<Seq<char>>| r.entry,
    ));
    assert(rows.skip(0) =~= rows);
}

}
