//! What a walk finds in a whole tree of directories.

use crate::cache_scanner::{
    after_entries, directory_is_read_whole, met, remote_of, slashed, with_remotes, EntryKind,
    WalkView,
};
use crate::unix_path::{below, joined, joined_is_below, lossy, SLASH};
use vstd::prelude::*;

verus! {

/// What stands under a name. A directory has its entries by name, in the order
/// in which they are read; one that cannot be read has none.
pub enum Tree {
    Symlink,
    Other,
    File,
    Folder(Seq<(Seq<u8>, Tree)>),
}

impl Tree {
    pub open spec fn kind(self) -> EntryKind {
        match self {
            Tree::Symlink => EntryKind::Symlink,
            Tree::Other => EntryKind::Other,
            Tree::File => EntryKind::File,
            Tree::Folder(_) => EntryKind::Folder,
        }
    }
}

/// Something that can be the name of an entry.
pub open spec fn plain(name: Seq<u8>) -> bool {
    name.len() > 0 && !name.contains(SLASH)
}

/// The names are names, and those of one directory are different.
pub open spec fn well_named(tree: Tree) -> bool
    decreases tree,
{
    match tree {
        Tree::Folder(entries) => all_well_named(entries),
        _ => true,
    }
}

/// The same of the entries of a directory.
pub open spec fn all_well_named(entries: Seq<(Seq<u8>, Tree)>) -> bool
    decreases entries,
{
    entries.len() > 0 ==> {
        &&& all_well_named(entries.drop_last())
        &&& plain(entries.last().0)
        &&& well_named(entries.last().1)
        &&& forall|i: int|
            0 <= i < entries.len() - 1 ==> (#[trigger] entries[i]).0 != entries.last().0
    }
}

/// What each directory is read as, by its path: the kinds of its entries, and
/// their canonical paths where these are asked for.
pub type Disk = spec_fn(Seq<u8>) -> Seq<(EntryKind, Option<Seq<u8>>)>;

/// What an entry of the directory `dir` is read as. On the way to it there is
/// no link, so that its path is canonical as that of `dir` is.
pub open spec fn read_as(dir: Seq<u8>, entry: (Seq<u8>, Tree)) -> (EntryKind, Option<Seq<u8>>) {
    (
        entry.1.kind(),
        match entry.1 {
            Tree::File | Tree::Folder(_) => Some(joined(dir, entry.0)),
            _ => None,
        },
    )
}

/// What the entries of the directory `dir` are read as.
pub open spec fn all_read_as(dir: Seq<u8>, entries: Seq<(Seq<u8>, Tree)>) -> Seq<
    (EntryKind, Option<Seq<u8>>),
> {
    entries.map_values(|e: (Seq<u8>, Tree)| read_as(dir, e))
}

/// The tree stands on the disk at `path`.
pub open spec fn stands_at(disk: Disk, path: Seq<u8>, tree: Tree) -> bool
    decreases tree,
{
    match tree {
        Tree::Folder(entries) => disk(path) == all_read_as(path, entries) && all_stand_in(
            disk,
            path,
            entries,
        ),
        _ => true,
    }
}

/// The entries stand on the disk in the directory `dir`.
pub open spec fn all_stand_in(disk: Disk, dir: Seq<u8>, entries: Seq<(Seq<u8>, Tree)>) -> bool
    decreases entries,
{
    entries.len() > 0 ==> all_stand_in(disk, dir, entries.drop_last()) && stands_at(
        disk,
        joined(dir, entries.last().0),
        entries.last().1,
    )
}

/// How many directories there are.
pub open spec fn folders(tree: Tree) -> nat
    decreases tree,
{
    match tree {
        Tree::Folder(entries) => 1 + folders_in(entries),
        _ => 0,
    }
}

/// How many directories there are in a directory with these entries.
pub open spec fn folders_in(entries: Seq<(Seq<u8>, Tree)>) -> nat
    decreases entries,
{
    if entries.len() == 0 {
        0
    } else {
        folders_in(entries.drop_last()) + folders(entries.last().1)
    }
}

/// The entries of a kind, by their paths, in order.
pub open spec fn of_kind(
    dir: Seq<u8>,
    kind: EntryKind,
    entries: Seq<(Seq<u8>, Tree)>,
) -> Seq<Seq<u8>>
    decreases entries.len(),
{
    if entries.len() == 0 {
        Seq::empty()
    } else if entries.last().1.kind() == kind {
        of_kind(dir, kind, entries.drop_last()).push(joined(dir, entries.last().0))
    } else {
        of_kind(dir, kind, entries.drop_last())
    }
}

/// The files of the tree at `path`: first those of the directory itself, then
/// those of its directories, of which the last comes first.
pub open spec fn files_of(path: Seq<u8>, tree: Tree) -> Seq<Seq<u8>>
    decreases tree,
{
    match tree {
        Tree::Folder(entries) => of_kind(path, EntryKind::File, entries) + files_below(
            path,
            entries,
        ),
        _ => Seq::empty(),
    }
}

/// The files of the directories among the entries of `dir`.
pub open spec fn files_below(dir: Seq<u8>, entries: Seq<(Seq<u8>, Tree)>) -> Seq<Seq<u8>>
    decreases entries,
{
    if entries.len() == 0 {
        Seq::empty()
    } else {
        files_of(joined(dir, entries.last().0), entries.last().1) + files_below(
            dir,
            entries.drop_last(),
        )
    }
}

/// The walk after at most `n` more directories were read.
pub open spec fn walked(w: WalkView, disk: Disk, n: nat) -> WalkView
    decreases n,
{
    if n == 0 || w.stack.len() == 0 {
        w
    } else {
        walked(
            after_entries(
                WalkView { stack: w.stack.drop_last(), ..w },
                disk(w.stack.last()),
            ),
            disk,
            (n - 1) as nat,
        )
    }
}

/// Following the names from `tree` on leads through directories to a file.
pub open spec fn leads_to_file(tree: Tree, names: Seq<Seq<u8>>) -> bool
    decreases names.len(),
{
    if names.len() == 0 {
        tree is File
    } else {
        tree matches Tree::Folder(entries) && exists|i: int|
            0 <= i < entries.len() && (#[trigger] entries[i]).0 == names[0] && leads_to_file(
                entries[i].1,
                names.drop_first(),
            )
    }
}

/// Where following the names from `path` on leads.
pub open spec fn path_of(path: Seq<u8>, names: Seq<Seq<u8>>) -> Seq<u8>
    decreases names.len(),
{
    if names.len() == 0 {
        path
    } else {
        path_of(joined(path, names[0]), names.drop_first())
    }
}

/// The names with slashes between them.
pub open spec fn separated(names: Seq<Seq<u8>>) -> Seq<u8>
    decreases names.len(),
{
    if names.len() == 0 {
        Seq::empty()
    } else if names.len() == 1 {
        names[0]
    } else {
        names[0].push(SLASH) + separated(names.drop_first())
    }
}

/// In the tree at `path`, `file` is the path of a regular file that is reached
/// through no link.
pub open spec fn is_file_of(path: Seq<u8>, tree: Tree, file: Seq<u8>) -> bool {
    exists|names: Seq<Seq<u8>>|
        names.len() > 0 && #[trigger] leads_to_file(tree, names) && file == path_of(path, names)
}

proof fn lemma_joined_below(root: Seq<u8>, dir: Seq<u8>, name: Seq<u8>)
    requires
        root.len() > 0,
        below(root, dir),
    ensures
        below(root, joined(dir, name)),
{
    let path = joined(dir, name);
    assert(path.take(root.len() as int) =~= dir.take(root.len() as int));
}

proof fn lemma_met(root: Seq<u8>, dir: Seq<u8>, kind: EntryKind, entries: Seq<(Seq<u8>, Tree)>)
    requires
        root.len() > 0,
        below(root, dir),
        kind is File || kind is Folder,
    ensures
        met(root, kind, all_read_as(dir, entries)) == of_kind(dir, kind, entries),
    decreases entries.len(),
{
    if entries.len() > 0 {
        lemma_met(root, dir, kind, entries.drop_last());
        lemma_joined_below(root, dir, entries.last().0);
        assert(all_read_as(dir, entries).drop_last() =~= all_read_as(dir, entries.drop_last()));
    }
}

proof fn lemma_with_remotes(root: Seq<u8>, a: Seq<Seq<u8>>, b: Seq<Seq<u8>>)
    ensures
        with_remotes(root, a + b) == with_remotes(root, a) + with_remotes(root, b),
{
    assert(with_remotes(root, a + b) =~= with_remotes(root, a) + with_remotes(root, b));
}

/// A directory that is read next is read whole, with all that stands below it,
/// before what was left to be read before it.
proof fn lemma_walk_tree(
    w: WalkView,
    rest: Seq<Seq<u8>>,
    disk: Disk,
    path: Seq<u8>,
    tree: Tree,
    n: nat,
)
    requires
        w.root.len() > 0,
        below(w.root, path),
        tree is Folder,
        stands_at(disk, path, tree),
        w.stack == rest.push(path),
        n >= folders(tree),
    ensures
        walked(w, disk, n) == walked(
            WalkView {
                root: w.root,
                stack: rest,
                found: w.found + with_remotes(w.root, files_of(path, tree)),
            },
            disk,
            (n - folders(tree)) as nat,
        ),
    decreases tree,
{
    let entries = tree->Folder_0;
    let popped = WalkView { stack: w.stack.drop_last(), ..w };
    assert(popped.stack =~= rest);
    let read = after_entries(popped, disk(path));
    directory_is_read_whole(popped, disk(path));
    lemma_met(w.root, path, EntryKind::File, entries);
    lemma_met(w.root, path, EntryKind::Folder, entries);
    assert(walked(w, disk, n) == walked(read, disk, (n - 1) as nat));
    lemma_walk_entries(read, rest, disk, path, entries, (n - 1) as nat);
    let own = of_kind(path, EntryKind::File, entries);
    lemma_with_remotes(w.root, own, files_below(path, entries));
    assert(w.found + with_remotes(w.root, own) + with_remotes(w.root, files_below(path, entries))
        =~= w.found + with_remotes(w.root, files_of(path, tree)));
}

/// The same of the directories among the entries of a directory.
proof fn lemma_walk_entries(
    w: WalkView,
    rest: Seq<Seq<u8>>,
    disk: Disk,
    dir: Seq<u8>,
    entries: Seq<(Seq<u8>, Tree)>,
    n: nat,
)
    requires
        w.root.len() > 0,
        below(w.root, dir),
        all_stand_in(disk, dir, entries),
        w.stack == rest + of_kind(dir, EntryKind::Folder, entries),
        n >= folders_in(entries),
    ensures
        walked(w, disk, n) == walked(
            WalkView {
                root: w.root,
                stack: rest,
                found: w.found + with_remotes(w.root, files_below(dir, entries)),
            },
            disk,
            (n - folders_in(entries)) as nat,
        ),
    decreases entries,
{
    if entries.len() == 0 {
        assert(w.stack =~= rest);
        assert(w.found + with_remotes(w.root, files_below(dir, entries)) =~= w.found);
    } else {
        let before = entries.drop_last();
        let (name, tree) = entries.last();
        let path = joined(dir, name);
        let left = rest + of_kind(dir, EntryKind::Folder, before);
        let found = files_of(path, tree);
        let next = WalkView {
            root: w.root,
            stack: left,
            found: w.found + with_remotes(w.root, found),
        };
        if tree is Folder {
            lemma_joined_below(w.root, dir, name);
            assert(w.stack =~= left.push(path));
            lemma_walk_tree(w, left, disk, path, tree, n);
        } else {
            assert(next =~= w);
        }
        lemma_walk_entries(next, rest, disk, dir, before, (n - folders(tree)) as nat);
        lemma_with_remotes(w.root, found, files_below(dir, before));
        assert(next.found + with_remotes(w.root, files_below(dir, before)) =~= w.found
            + with_remotes(w.root, files_below(dir, entries)));
    }
}

proof fn lemma_of_kind(
    dir: Seq<u8>,
    kind: EntryKind,
    entries: Seq<(Seq<u8>, Tree)>,
    path: Seq<u8>,
)
    ensures
        of_kind(dir, kind, entries).contains(path) <==> exists|i: int|
            0 <= i < entries.len() && (#[trigger] entries[i]).1.kind() == kind && path == joined(
                dir,
                entries[i].0,
            ),
    decreases entries.len(),
{
    if entries.len() > 0 {
        let rest = entries.drop_last();
        let all = of_kind(dir, kind, entries);
        let part = of_kind(dir, kind, rest);
        lemma_of_kind(dir, kind, rest, path);
        if all.contains(path) {
            let k = choose|k: int| 0 <= k < all.len() && all[k] == path;
            if k < part.len() {
                assert(part[k] == path);
                let i = choose|i: int|
                    0 <= i < rest.len() && (#[trigger] rest[i]).1.kind() == kind && path == joined(
                        dir,
                        rest[i].0,
                    );
                assert(entries[i] == rest[i]);
            } else {
                assert(entries[entries.len() - 1] == entries.last());
            }
        }
        if exists|i: int|
            0 <= i < entries.len() && (#[trigger] entries[i]).1.kind() == kind && path == joined(
                dir,
                entries[i].0,
            ) {
            let i = choose|i: int|
                0 <= i < entries.len() && (#[trigger] entries[i]).1.kind() == kind && path
                    == joined(dir, entries[i].0);
            if i < rest.len() {
                assert(rest[i] == entries[i]);
                let k = choose|k: int| 0 <= k < part.len() && part[k] == path;
                assert(all[k] == path);
            } else {
                assert(all[all.len() - 1] == path);
            }
        }
    }
}

proof fn lemma_files_below(dir: Seq<u8>, entries: Seq<(Seq<u8>, Tree)>, file: Seq<u8>)
    ensures
        files_below(dir, entries).contains(file) <==> exists|i: int|
            0 <= i < entries.len() && files_of(
                joined(dir, (#[trigger] entries[i]).0),
                entries[i].1,
            ).contains(file),
    decreases entries.len(),
{
    if entries.len() > 0 {
        let rest = entries.drop_last();
        let first = files_of(joined(dir, entries.last().0), entries.last().1);
        let part = files_below(dir, rest);
        let all = files_below(dir, entries);
        lemma_files_below(dir, rest, file);
        if all.contains(file) {
            let k = choose|k: int| 0 <= k < all.len() && all[k] == file;
            if k < first.len() {
                assert(first[k] == file);
                assert(entries[entries.len() - 1] == entries.last());
            } else {
                assert(part[k - first.len()] == file);
                let i = choose|i: int|
                    0 <= i < rest.len() && files_of(
                        joined(dir, (#[trigger] rest[i]).0),
                        rest[i].1,
                    ).contains(file);
                assert(entries[i] == rest[i]);
            }
        }
        if exists|i: int|
            0 <= i < entries.len() && files_of(
                joined(dir, (#[trigger] entries[i]).0),
                entries[i].1,
            ).contains(file) {
            let i = choose|i: int|
                0 <= i < entries.len() && files_of(
                    joined(dir, (#[trigger] entries[i]).0),
                    entries[i].1,
                ).contains(file);
            if i < rest.len() {
                assert(rest[i] == entries[i]);
                let k = choose|k: int| 0 <= k < part.len() && part[k] == file;
                assert(all[first.len() + k] == file);
            } else {
                let k = choose|k: int| 0 <= k < first.len() && first[k] == file;
                assert(all[k] == file);
            }
        }
    }
}

proof fn lemma_files_of(path: Seq<u8>, entries: Seq<(Seq<u8>, Tree)>, file: Seq<u8>)
    ensures
        files_of(path, Tree::Folder(entries)).contains(file) <==> of_kind(
            path,
            EntryKind::File,
            entries,
        ).contains(file) || files_below(path, entries).contains(file),
{
    let own = of_kind(path, EntryKind::File, entries);
    let part = files_below(path, entries);
    let all = files_of(path, Tree::Folder(entries));
    if all.contains(file) {
        let k = choose|k: int| 0 <= k < all.len() && all[k] == file;
        if k < own.len() {
            assert(own[k] == file);
        } else {
            assert(part[k - own.len()] == file);
        }
    }
    if own.contains(file) {
        let k = choose|k: int| 0 <= k < own.len() && own[k] == file;
        assert(all[k] == file);
    }
    if part.contains(file) {
        let k = choose|k: int| 0 <= k < part.len() && part[k] == file;
        assert(all[own.len() + k] == file);
    }
}

/// A file of a directory tree has names that lead to it.
proof fn lemma_file_has_names(path: Seq<u8>, tree: Tree, file: Seq<u8>)
    requires
        files_of(path, tree).contains(file),
    ensures
        is_file_of(path, tree, file),
    decreases tree,
{
    let entries = tree->Folder_0;
    lemma_files_of(path, entries, file);
    if of_kind(path, EntryKind::File, entries).contains(file) {
        lemma_of_kind(path, EntryKind::File, entries, file);
        let i = choose|i: int|
            0 <= i < entries.len() && (#[trigger] entries[i]).1.kind() == EntryKind::File && file
                == joined(path, entries[i].0);
        let names = seq![entries[i].0];
        assert(names.drop_first() =~= Seq::empty());
        assert(leads_to_file(entries[i].1, names.drop_first()));
        assert(leads_to_file(tree, names));
        assert(path_of(joined(path, names[0]), names.drop_first()) == file);
    } else {
        lemma_files_below(path, entries, file);
        let i = choose|i: int|
            0 <= i < entries.len() && files_of(
                joined(path, (#[trigger] entries[i]).0),
                entries[i].1,
            ).contains(file);
        let at = joined(path, entries[i].0);
        lemma_file_has_names(at, entries[i].1, file);
        let rest = choose|names: Seq<Seq<u8>>|
            names.len() > 0 && #[trigger] leads_to_file(entries[i].1, names) && file == path_of(
                at,
                names,
            );
        let names = seq![entries[i].0] + rest;
        assert(names.drop_first() =~= rest);
        assert(leads_to_file(tree, names));
    }
}

/// What names lead to is a file of the directory tree.
proof fn lemma_names_lead_to_file(path: Seq<u8>, tree: Tree, names: Seq<Seq<u8>>)
    requires
        names.len() > 0,
        leads_to_file(tree, names),
    ensures
        files_of(path, tree).contains(path_of(path, names)),
    decreases names.len(),
{
    let file = path_of(path, names);
    let entries = tree->Folder_0;
    let rest = names.drop_first();
    let i = choose|i: int|
        0 <= i < entries.len() && (#[trigger] entries[i]).0 == names[0] && leads_to_file(
            entries[i].1,
            rest,
        );
    lemma_files_of(path, entries, file);
    lemma_of_kind(path, EntryKind::File, entries, file);
    lemma_files_below(path, entries, file);
    if rest.len() > 0 {
        lemma_names_lead_to_file(joined(path, names[0]), entries[i].1, rest);
    } else {
        assert(path_of(joined(path, names[0]), rest) == joined(path, names[0]));
    }
}

proof fn lemma_well_named(entries: Seq<(Seq<u8>, Tree)>, i: int)
    requires
        all_well_named(entries),
        0 <= i < entries.len(),
    ensures
        plain(entries[i].0),
        well_named(entries[i].1),
    decreases entries.len(),
{
    if i < entries.len() - 1 {
        lemma_well_named(entries.drop_last(), i);
        assert(entries.drop_last()[i] == entries[i]);
    }
}

/// What names lead to lies below where they begin.
proof fn lemma_files_lie_below(path: Seq<u8>, tree: Tree, file: Seq<u8>)
    requires
        path.len() > 0,
        files_of(path, tree).contains(file),
    ensures
        below(path, file),
    decreases tree,
{
    let entries = tree->Folder_0;
    lemma_files_of(path, entries, file);
    lemma_of_kind(path, EntryKind::File, entries, file);
    lemma_files_below(path, entries, file);
    assert(path.take(path.len() as int) =~= path);
    if of_kind(path, EntryKind::File, entries).contains(file) {
        let i = choose|i: int|
            0 <= i < entries.len() && (#[trigger] entries[i]).1.kind() == EntryKind::File && file
                == joined(path, entries[i].0);
        lemma_joined_below(path, path, entries[i].0);
    } else {
        let i = choose|i: int|
            0 <= i < entries.len() && files_of(
                joined(path, (#[trigger] entries[i]).0),
                entries[i].1,
            ).contains(file);
        let at = joined(path, entries[i].0);
        lemma_files_lie_below(at, entries[i].1, file);
        lemma_joined_below(path, path, entries[i].0);
        assert(file.take(path.len() as int) =~= file.take(at.len() as int).take(
            path.len() as int,
        ));
    }
}

/// A path lies below at most one entry of a directory.
proof fn lemma_one_entry(dir: Seq<u8>, a: Seq<u8>, b: Seq<u8>, path: Seq<u8>)
    requires
        dir.len() > 0,
        plain(a),
        plain(b),
        below(joined(dir, a), path),
        below(joined(dir, b), path),
    ensures
        a == b,
{
    let pa = joined(dir, a);
    let pb = joined(dir, b);
    let start = pa.len() - a.len();
    assert(a.contains(a.last()));
    assert(b.contains(b.last()));
    assert forall|i: int| 0 <= i < a.len() implies path[start + i] == a[i] by {
        assert(path.take(pa.len() as int)[start + i] == pa[start + i]);
    }
    assert forall|i: int| 0 <= i < b.len() implies path[start + i] == b[i] by {
        assert(path.take(pb.len() as int)[start + i] == pb[start + i]);
    }
    if a.len() < b.len() {
        assert(b.contains(b[a.len() as int]));
    } else if b.len() < a.len() {
        assert(a.contains(a[b.len() as int]));
    } else {
        assert(a =~= b);
    }
}

proof fn lemma_own_files_differ(dir: Seq<u8>, entries: Seq<(Seq<u8>, Tree)>)
    requires
        dir.len() > 0,
        all_well_named(entries),
    ensures
        of_kind(dir, EntryKind::File, entries).no_duplicates(),
    decreases entries.len(),
{
    if entries.len() > 0 {
        let rest = entries.drop_last();
        lemma_own_files_differ(dir, rest);
        let last = joined(dir, entries.last().0);
        let part = of_kind(dir, EntryKind::File, rest);
        if part.contains(last) {
            lemma_of_kind(dir, EntryKind::File, rest, last);
            let i = choose|i: int|
                0 <= i < rest.len() && (#[trigger] rest[i]).1.kind() == EntryKind::File && last
                    == joined(dir, rest[i].0);
            lemma_well_named(rest, i);
            assert(last.take(last.len() as int) =~= last);
            lemma_one_entry(dir, rest[i].0, entries.last().0, last);
            assert(entries[i] == rest[i]);
        }
        assert(forall|k: int| 0 <= k < part.len() ==> part.contains(#[trigger] part[k]));
    }
}

proof fn lemma_no_duplicates(a: Seq<Seq<u8>>, b: Seq<Seq<u8>>)
    requires
        a.no_duplicates(),
        b.no_duplicates(),
        forall|x: Seq<u8>| !(#[trigger] a.contains(x) && b.contains(x)),
    ensures
        (a + b).no_duplicates(),
{
    let all = a + b;
    assert forall|i: int, j: int| 0 <= i < all.len() && 0 <= j < all.len() && i != j implies all[i]
        != all[j] by {
        if i < a.len() && j >= a.len() {
            assert(a.contains(a[i]));
            assert(b.contains(b[j - a.len()]));
        } else if j < a.len() && i >= a.len() {
            assert(a.contains(a[j]));
            assert(b.contains(b[i - a.len()]));
        }
    }
}

proof fn lemma_files_differ(path: Seq<u8>, tree: Tree)
    requires
        path.len() > 0,
        well_named(tree),
    ensures
        files_of(path, tree).no_duplicates(),
    decreases tree,
{
    if let Tree::Folder(entries) = tree {
        let own = of_kind(path, EntryKind::File, entries);
        let part = files_below(path, entries);
        lemma_own_files_differ(path, entries);
        lemma_nested_files_differ(path, entries);
        assert forall|x: Seq<u8>| !(#[trigger] own.contains(x) && part.contains(x)) by {
            if own.contains(x) && part.contains(x) {
                lemma_of_kind(path, EntryKind::File, entries, x);
                lemma_files_below(path, entries, x);
                let i = choose|i: int|
                    0 <= i < entries.len() && (#[trigger] entries[i]).1.kind() == EntryKind::File
                        && x == joined(path, entries[i].0);
                let j = choose|j: int|
                    0 <= j < entries.len() && files_of(
                        joined(path, (#[trigger] entries[j]).0),
                        entries[j].1,
                    ).contains(x);
                lemma_well_named(entries, i);
                lemma_well_named(entries, j);
                lemma_files_lie_below(joined(path, entries[j].0), entries[j].1, x);
                assert(x.take(x.len() as int) =~= x);
                lemma_one_entry(path, entries[i].0, entries[j].0, x);
                lemma_names_differ(entries, i, j);
            }
        }
        lemma_no_duplicates(own, part);
    }
}

proof fn lemma_names_differ(entries: Seq<(Seq<u8>, Tree)>, i: int, j: int)
    requires
        all_well_named(entries),
        0 <= i < entries.len(),
        0 <= j < entries.len(),
        entries[i].0 == entries[j].0,
    ensures
        i == j,
    decreases entries.len(),
{
    let last = entries.len() - 1;
    if i < last && j < last {
        assert(entries.drop_last()[i] == entries[i]);
        assert(entries.drop_last()[j] == entries[j]);
        lemma_names_differ(entries.drop_last(), i, j);
    }
}

proof fn lemma_nested_files_differ(dir: Seq<u8>, entries: Seq<(Seq<u8>, Tree)>)
    requires
        dir.len() > 0,
        all_well_named(entries),
    ensures
        files_below(dir, entries).no_duplicates(),
    decreases entries,
{
    if entries.len() > 0 {
        let rest = entries.drop_last();
        let name = entries.last().0;
        let at = joined(dir, name);
        let first = files_of(at, entries.last().1);
        let part = files_below(dir, rest);
        lemma_files_differ(at, entries.last().1);
        lemma_nested_files_differ(dir, rest);
        assert forall|x: Seq<u8>| !(#[trigger] first.contains(x) && part.contains(x)) by {
            if first.contains(x) && part.contains(x) {
                lemma_files_below(dir, rest, x);
                let j = choose|j: int|
                    0 <= j < rest.len() && files_of(
                        joined(dir, (#[trigger] rest[j]).0),
                        rest[j].1,
                    ).contains(x);
                lemma_well_named(rest, j);
                lemma_files_lie_below(at, entries.last().1, x);
                lemma_files_lie_below(joined(dir, rest[j].0), rest[j].1, x);
                lemma_one_entry(dir, name, rest[j].0, x);
                assert(entries[j] == rest[j]);
            }
        }
        lemma_no_duplicates(first, part);
    }
}

/// A walk through a whole tree ends once every directory was read. It has then
/// found every regular file that is reached through no link, each exactly once
/// and with its remote path, and nothing else.
pub proof fn walk_finds_every_file_once(disk: Disk, root: Seq<u8>, tree: Tree, n: nat)
    requires
        root.len() > 0,
        tree is Folder,
        well_named(tree),
        stands_at(disk, root, tree),
        n >= folders(tree),
    ensures
        ({
            let files = files_of(root, tree);
            &&& walked(
                WalkView { root, stack: seq![root], found: Seq::empty() },
                disk,
                n,
            ) == (WalkView { root, stack: Seq::empty(), found: with_remotes(root, files) })
            &&& files.no_duplicates()
            &&& forall|file: Seq<u8>| #[trigger]
                files.contains(file) <==> is_file_of(root, tree, file)
        }),
{
    let files = files_of(root, tree);
    let start = WalkView { root, stack: seq![root], found: Seq::empty() };
    assert(root.take(root.len() as int) =~= root);
    assert(start.stack =~= Seq::empty().push(root));
    lemma_walk_tree(start, Seq::empty(), disk, root, tree, n);
    assert(start.found + with_remotes(root, files) =~= with_remotes(root, files));
    lemma_files_differ(root, tree);
    assert forall|file: Seq<u8>| #[trigger] files.contains(file) <==> is_file_of(
        root,
        tree,
        file,
    ) by {
        if files.contains(file) {
            lemma_file_has_names(root, tree, file);
        }
        if is_file_of(root, tree, file) {
            let names = choose|names: Seq<Seq<u8>>|
                names.len() > 0 && #[trigger] leads_to_file(tree, names) && file == path_of(
                    root,
                    names,
                );
            lemma_names_lead_to_file(root, tree, names);
        }
    }
}

proof fn lemma_path_of(path: Seq<u8>, tree: Tree, names: Seq<Seq<u8>>)
    requires
        path.len() > 0,
        names.len() > 0,
        well_named(tree),
        leads_to_file(tree, names),
    ensures
        path_of(path, names) == joined(path, separated(names)),
        separated(names).len() > 0,
    decreases names.len(),
{
    let entries = tree->Folder_0;
    let rest = names.drop_first();
    let i = choose|i: int|
        0 <= i < entries.len() && (#[trigger] entries[i]).0 == names[0] && leads_to_file(
            entries[i].1,
            rest,
        );
    lemma_well_named(entries, i);
    let at = joined(path, names[0]);
    if rest.len() > 0 {
        lemma_path_of(at, entries[i].1, rest);
        assert(names[0].contains(names[0].last()));
        assert(joined(at, separated(rest)) =~= joined(path, separated(names)));
    } else {
        assert(path_of(at, rest) == at);
    }
}

/// The remote path of a file that is found is the names that lead to it, with
/// slashes before and between them.
pub proof fn remote_path_is_the_way_down(root: Seq<u8>, tree: Tree, names: Seq<Seq<u8>>)
    requires
        root.len() > 0,
        names.len() > 0,
        well_named(tree),
        leads_to_file(tree, names),
    ensures
        path_of(root, names) == joined(root, separated(names)),
        remote_of(root, path_of(root, names)) == "/"@ + slashed(lossy(separated(names))),
{
    lemma_path_of(root, tree, names);
    joined_is_below(root, separated(names));
}

}
