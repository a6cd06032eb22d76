//! What holds of the operations together.

use crate::fuse_fs::attrs::{attr_of, shown, CachedAttr, FileAttr, Owner};
use crate::fuse_fs::errno::{errno_of, namespace_errno_of, EIO, ENOENT};
use crate::fuse_fs::handles::{handle_text, truncating, Fsync, PendingFile};
use crate::fuse_fs::listing::{lemma_populated, Fetch, Lookup};
use crate::fuse_fs::names::{child_of, child_paths_agree};
use crate::fuse_fs::namespace::CreatedFile;
use crate::fuse_fs::setattr::{Setattr, Waiting};
use crate::fuse_fs::{FsView, OpenHandle};
use crate::ipc::{answered_bare, answered_path, IpcErrorView, ListEntryView, Request};
use crate::json::JsonView;
use crate::path_map::{PathMapView, ROOT_INODE};
use crate::text::{decimal, digit, lemma_decimal_injective};
use vstd::prelude::*;

verus! {

/// Every open file has a file handle that was given out.
pub open spec fn handles_given_out(v: FsView) -> bool {
    forall|fh: u64| #[trigger] v.handles.contains_key(fh) ==> 0 < fh < v.next_fh
}

proof fn lemma_decimal_digits(n: nat, i: int)
    requires
        0 <= i < decimal(n).len(),
    ensures
        decimal(n)[i] != '-',
    decreases n,
{
    assert(digit(n % 10) != '-');
    if n >= 10 && i < decimal(n).len() - 1 {
        lemma_decimal_digits(n / 10, i);
    }
}

/// Ids for the daemon with different numbers are different, whatever their
/// prefixes, which end in a dash.
pub proof fn handle_ids_are_distinct(p: Seq<char>, a: u64, q: Seq<char>, b: u64)
    requires
        p.len() > 0,
        p.last() == '-',
        q.len() > 0,
        q.last() == '-',
        a != b,
    ensures
        handle_text(p, a) != handle_text(q, b),
{
    if handle_text(p, a) == handle_text(q, b) {
        let da = decimal(a as nat);
        let db = decimal(b as nat);
        let t = handle_text(p, a);
        if da.len() < db.len() {
            let at = t.len() - da.len() - 1;
            assert(t[at] == '-');
            lemma_decimal_digits(b as nat, at - q.len());
        } else if db.len() < da.len() {
            let at = t.len() - db.len() - 1;
            assert(handle_text(q, b)[at] == '-');
            lemma_decimal_digits(a as nat, at - p.len());
        } else {
            assert(da =~= t.skip(p.len() as int));
            assert(db =~= t.skip(q.len() as int));
            lemma_decimal_injective(a as nat, b as nat);
        }
    }
}

/// Opening a file gives it a file handle of its own: no other open file is
/// touched, and the handle is new.
pub proof fn opening_displaces_nothing(v: FsView, h: OpenHandle<Seq<char>>, other: u64)
    requires
        handles_given_out(v),
        0 < v.next_fh < u64::MAX,
    ensures
        !v.handles.contains_key(v.next_fh),
        handles_given_out(v.with_handle(h)),
        v.with_handle(h).handles[v.next_fh] == h,
        v.handles.contains_key(other) ==> v.with_handle(h).handles.contains_key(other)
            && v.with_handle(h).handles[other] == v.handles[other],
{
}

/// A file opened to be emptied is made empty by the daemon without its content
/// being fetched; releasing it untouched still tells the daemon of the empty
/// content, and closes the handle that was registered.
pub proof fn emptied_file_is_committed(
    v: FsView,
    inode: u64,
    flags: u32,
    later: FsView,
    cache_path: Seq<char>,
)
    requires
        v.open(inode, flags).1 is Ok,
        truncating(flags),
    ensures
        ({
            let pending = v.open(inode, flags).1->Ok_0;
            let file = PendingFile { open: pending, cache_path };
            let after = later.opened(file, true);
            &&& pending.request() == Request::OpenWriteBegin {
                path: pending.path,
                handle_id: Some(pending.handle_id),
            }
            &&& after.1 matches Ok(fh) && after.0.release_requests(fh) == seq![
                Request::OpenWrite {
                    handle_id: pending.handle_id,
                    path: pending.path,
                    cache_path,
                },
                Request::CloseHandle { handle_id: pending.handle_id },
            ]
        }),
{
}

/// Any other open asks the daemon for the content, and releasing the file
/// untouched only closes the handle.
pub proof fn untouched_file_is_not_committed(
    v: FsView,
    inode: u64,
    flags: u32,
    later: FsView,
    cache_path: Seq<char>,
)
    requires
        v.open(inode, flags).1 is Ok,
        !truncating(flags),
    ensures
        ({
            let pending = v.open(inode, flags).1->Ok_0;
            let file = PendingFile { open: pending, cache_path };
            let after = later.opened(file, true);
            &&& pending.request() == Request::OpenRead {
                handle_id: pending.handle_id,
                path: pending.path,
            }
            &&& after.1 matches Ok(fh) && after.0.release_requests(fh) == seq![
                Request::CloseHandle::<Seq<char>> { handle_id: pending.handle_id },
            ]
        }),
{
}

/// A file that was written to is committed when it is released, and only then
/// closed.
pub proof fn written_file_is_committed(v: FsView, fh: u64, n: usize)
    requires
        v.handles.contains_key(fh),
    ensures
        v.wrote(fh, Some(n)).1 == Ok::<u32, i32>(n as u32),
        v.wrote(fh, Some(n)).0.release_requests(fh) == seq![
            v.handles[fh].upload(),
            v.handles[fh].close(),
        ],
{
}

/// A new file is committed when it is released, though nothing was written,
/// under the handle id that the daemon chose.
pub proof fn new_file_is_committed(
    v: FsView,
    file: CreatedFile<Seq<char>>,
    now: Option<u128>,
    owner: Owner,
)
    ensures
        v.created(file, true, now, owner).1 matches Ok((fh, _, _)) && v.created(
            file,
            true,
            now,
            owner,
        ).0.release_requests(fh) == seq![
            Request::OpenWrite {
                handle_id: file.handle_id,
                path: file.path,
                cache_path: file.cache_path,
            },
            Request::CloseHandle { handle_id: file.handle_id },
        ],
{
}

/// Releasing a file closes its handle, as the last of what the daemon is told,
/// and the daemon is told of its content exactly if it is dirty, before that.
pub proof fn release_closes_last(v: FsView, fh: u64)
    requires
        v.handles.contains_key(fh),
    ensures
        v.release_requests(fh).last() == v.handles[fh].close(),
        v.release_requests(fh).contains(v.handles[fh].upload()) <==> v.handles[fh].dirty,
        v.handles[fh].dirty ==> v.release_requests(fh)[0] == v.handles[fh].upload(),
        v.without_handle(fh).release_requests(fh) == Seq::<Request<Seq<char>>>::empty(),
{
    let h = v.handles[fh];
    if h.dirty {
        assert(v.release_requests(fh)[0] == h.upload());
    }
}

/// A sync takes the dirty mark before it uploads.
pub proof fn sync_takes_the_dirty_mark(v: FsView, fh: u64)
    requires
        v.handles.contains_key(fh),
        v.handles[fh].dirty,
    ensures
        v.synced(fh, true).1 == Fsync::Upload(v.handles[fh].upload()),
        !v.synced(fh, true).0.handles[fh].dirty,
{
}

/// A write that comes between the start and the end of an upload is not lost:
/// the file is dirty when the sync ends, whatever the daemon answered.
pub proof fn racing_write_stays_dirty(
    v: FsView,
    fh: u64,
    n: usize,
    reply: Result<JsonView, IpcErrorView>,
)
    requires
        v.handles.contains_key(fh),
        v.handles[fh].dirty,
    ensures
        v.synced(fh, true).0.wrote(fh, Some(n)).0.uploaded(fh, reply).0.handles[fh].dirty,
{
}

/// A sync whose upload failed leaves the file dirty and says so; one whose
/// upload succeeded leaves a file that was not written to meanwhile clean.
pub proof fn failed_sync_stays_dirty(
    v: FsView,
    fh: u64,
    reply: Result<JsonView, IpcErrorView>,
)
    requires
        v.handles.contains_key(fh),
        v.handles[fh].dirty,
    ensures
        ({
            let end = v.synced(fh, true).0.uploaded(fh, reply);
            if answered_path(reply) is Ok {
                end.1 is Ok && !end.0.handles[fh].dirty && end.0.release_requests(fh) == seq![
                    v.handles[fh].close(),
                ]
            } else {
                end.1 is Err && end.0.handles[fh].dirty
            }
        }),
{
}

/// What a directory listing said of an entry is what `getattr` answers, and
/// nothing has to be asked for it.
pub proof fn listed_attrs_need_no_asking(
    v: FsView,
    entries: Seq<ListEntryView>,
    i: int,
    owner: Owner,
)
    requires
        v.wf(),
        v.fits(entries.len()),
        0 <= i < entries.len(),
        forall|j: int| i < j < entries.len() ==> (#[trigger] entries[j]).path != entries[i].path,
    ensures
        ({
            let after = v.populated(entries);
            let ino = after.paths.inode_of(entries[i].path);
            ino != ROOT_INODE ==> after.getattr(ino, owner) == Fetch::<
                FileAttr,
                Seq<char>,
            >::Done(
                Ok(shown(ino, attr_of(entries[i]), owner)),
            )
        }),
{
    crate::fuse_fs::listing::listed_attrs_are_remembered(v, entries, i);
}

/// What was just made is found without asking, by its name and by its inode.
pub proof fn new_entry_is_found(
    v: FsView,
    parent: u64,
    name: Seq<char>,
    a: CachedAttr,
    owner: Owner,
)
    requires
        v.wf(),
        v.paths.next < u64::MAX,
        v.paths.paths.contains_key(parent),
        v.paths.paths[parent].len() > 0 ==> v.paths.paths[parent].last() != '/',
    ensures
        ({
            let path = child_of(v.paths.paths[parent], name);
            let ino = v.paths.inode_of(path);
            &&& v.with_entry(path, a).lookup(parent, Some(name), owner) == Lookup::<
                Seq<char>,
            >::Done(Ok(shown(ino, a, owner)))
            &&& ino != ROOT_INODE ==> v.with_entry(path, a).getattr(ino, owner) == Fetch::<
                FileAttr,
                Seq<char>,
            >::Done(Ok(shown(ino, a, owner)))
        }),
{
    child_paths_agree(v.paths.paths[parent], name);
}

/// What was removed is gone: its inode has no path and nothing is known of
/// it, so that `getattr` answers `ENOENT`.
pub proof fn removed_entry_is_gone(v: FsView, path: Seq<char>, owner: Owner)
    requires
        v.wf(),
        v.paths.inodes.contains_key(path),
        v.paths.inodes[path] != ROOT_INODE,
    ensures
        v.without_entry(path).getattr(v.paths.inodes[path], owner) == Fetch::<
            FileAttr,
            Seq<char>,
        >::Done(
            Err(ENOENT),
        ),
        v.without_entry(path).paths.inode(path) is None,
{
}

/// A renamed file keeps its inode and what is known of it.
pub proof fn renamed_entry_keeps_its_inode(
    v: FsView,
    from: Seq<char>,
    to: Seq<char>,
    reply: Result<JsonView, IpcErrorView>,
    owner: Owner,
)
    requires
        v.wf(),
        v.paths.inodes.contains_key(from),
        from != to,
        answered_bare(reply) is Ok,
    ensures
        ({
            let after = v.moved(from, to, reply).0;
            let ino = v.paths.inodes[from];
            &&& after.wf()
            &&& after.paths.inode(to) == Some(ino)
            &&& after.paths.path(ino) == Some(to)
            &&& after.paths.inode(from) is None
            &&& after.known(ino) == v.known(ino)
        }),
{
    crate::path_map::rename_preserves_the_inode(v.paths, from, to);
}

/// Where the daemon refuses, nothing changes.
pub proof fn refused_change_changes_nothing(
    v: FsView,
    path: Seq<char>,
    to: Seq<char>,
    reply: Result<JsonView, IpcErrorView>,
    now: Option<u128>,
    owner: Owner,
)
    requires
        answered_bare(reply) is Err,
    ensures
        v.made_directory(path, reply, now, owner).0 == v,
        v.made_directory(path, reply, now, owner).1 is Err,
        v.removed(path, reply).0 == v,
        v.removed(path, reply).1 is Err,
        v.moved(path, to, reply).0 == v,
        v.moved(path, to, reply).1 is Err,
{
}

/// What the daemon is asked in the course of a `setattr` that stands at
/// `step`. The daemon answers by `answers`, a cache file is resized if
/// `resized`, and the `n`-th step finds the mount in the state `states(n)`.
pub open spec fn asked(
    states: spec_fn(nat) -> FsView,
    n: nat,
    inode: u64,
    step: Setattr<Seq<char>>,
    answers: spec_fn(Request<Seq<char>>) -> Result<JsonView, IpcErrorView>,
    resized: bool,
    fuel: nat,
) -> Seq<Request<Seq<char>>>
    decreases fuel,
{
    if fuel == 0 {
        Seq::empty()
    } else {
        match step {
            Setattr::Ask { request, waiting } => seq![request] + asked(
                states,
                n + 1,
                inode,
                states(n).setattr_replied(inode, waiting, answers(request)).1,
                answers,
                resized,
                (fuel - 1) as nat,
            ),
            Setattr::ResizeCache { path, handle_id, cache_path, size } => asked(
                states,
                n + 1,
                inode,
                FsView::cache_resized(path, handle_id, cache_path, size, resized),
                answers,
                resized,
                (fuel - 1) as nat,
            ),
            _ => Seq::empty(),
        }
    }
}

/// How a `setattr` that stands at `step` ends.
pub open spec fn ended(
    states: spec_fn(nat) -> FsView,
    n: nat,
    inode: u64,
    step: Setattr<Seq<char>>,
    answers: spec_fn(Request<Seq<char>>) -> Result<JsonView, IpcErrorView>,
    resized: bool,
    fuel: nat,
) -> Setattr<Seq<char>>
    decreases fuel,
{
    if fuel == 0 {
        step
    } else {
        match step {
            Setattr::Ask { request, waiting } => ended(
                states,
                n + 1,
                inode,
                states(n).setattr_replied(inode, waiting, answers(request)).1,
                answers,
                resized,
                (fuel - 1) as nat,
            ),
            Setattr::ResizeCache { path, handle_id, cache_path, size } => ended(
                states,
                n + 1,
                inode,
                FsView::cache_resized(path, handle_id, cache_path, size, resized),
                answers,
                resized,
                (fuel - 1) as nat,
            ),
            _ => step,
        }
    }
}

/// The state in which a `setattr` that stands at `step` leaves the mount when
/// it ends.
pub open spec fn left(
    states: spec_fn(nat) -> FsView,
    n: nat,
    inode: u64,
    step: Setattr<Seq<char>>,
    answers: spec_fn(Request<Seq<char>>) -> Result<JsonView, IpcErrorView>,
    resized: bool,
    fuel: nat,
) -> FsView
    decreases fuel,
{
    if fuel == 0 {
        states(n)
    } else {
        match step {
            Setattr::Ask { request, waiting } => {
                let (after, next) = states(n).setattr_replied(inode, waiting, answers(request));
                match next {
                    Setattr::Failed(_) | Setattr::Refresh => after,
                    _ => left(states, n + 1, inode, next, answers, resized, (fuel - 1) as nat),
                }
            },
            Setattr::ResizeCache { path, handle_id, cache_path, size } => left(
                states,
                n + 1,
                inode,
                FsView::cache_resized(path, handle_id, cache_path, size, resized),
                answers,
                resized,
                (fuel - 1) as nat,
            ),
            _ => states(n),
        }
    }
}

/// Emptying a file that is not open never fetches its content and registers
/// no handle for it. Where the daemon makes the empty file, it is told of the
/// new content, and the handle under which it is told is closed, whether the
/// daemon took the content or not. If it did, the end makes the size 0, as far
/// as one is known; if it did not, the end changes nothing.
pub proof fn emptying_commits_and_closes(
    states: spec_fn(nat) -> FsView,
    inode: u64,
    path: Seq<char>,
    answers: spec_fn(Request<Seq<char>>) -> Result<JsonView, IpcErrorView>,
    resized: bool,
)
    requires
        states(0).paths.path(inode) == Some(path),
    ensures
        ({
            let step = states(0).setattr(inode, None, Some(0)).1;
            let begin = Request::OpenWriteBegin { path, handle_id: None };
            let id = handle_text("trunc0-"@, states(1).next_handle_id);
            match answered_path(answers(begin)) {
                Err(e) => asked(states, 1, inode, step, answers, resized, 4) == seq![begin]
                    && ended(states, 1, inode, step, answers, resized, 4) == Setattr::<
                    Seq<char>,
                >::Failed(namespace_errno_of(e)) && left(
                    states,
                    1,
                    inode,
                    step,
                    answers,
                    resized,
                    4,
                ) == states(1),
                Ok(cache_path) => {
                    let upload = Request::OpenWrite { handle_id: id, path, cache_path };
                    &&& asked(states, 1, inode, step, answers, resized, 4) == seq![
                        begin,
                        upload,
                        Request::CloseHandle { handle_id: id },
                    ]
                    &&& match answered_path(answers(upload)) {
                        Ok(_) => ended(states, 1, inode, step, answers, resized, 4) is Refresh
                            && left(states, 1, inode, step, answers, resized, 4)
                            == states(3).with_size(inode, 0),
                        Err(e) => ended(states, 1, inode, step, answers, resized, 4) == Setattr::<
                            Seq<char>,
                        >::Failed(errno_of(e)) && left(
                            states,
                            1,
                            inode,
                            step,
                            answers,
                            resized,
                            4,
                        ) == states(3),
                    }
                },
            }
        }),
{
    reveal_with_fuel(asked, 5);
    reveal_with_fuel(ended, 5);
    reveal_with_fuel(left, 5);
    let step = states(0).setattr(inode, None, Some(0)).1;
    let begin = Request::OpenWriteBegin { path, handle_id: None };
    let id = handle_text("trunc0-"@, states(1).next_handle_id);
    match answered_path(answers(begin)) {
        Err(e) => {
            assert(asked(states, 1, inode, step, answers, resized, 4) =~= seq![begin]);
        },
        Ok(cache_path) => {
            let upload = Request::OpenWrite { handle_id: id, path, cache_path };
            assert(asked(states, 1, inode, step, answers, resized, 4) =~= seq![
                begin,
                upload,
                Request::CloseHandle { handle_id: id },
            ]);
        },
    }
}

/// Cutting or extending a file that is not open fetches its content first.
/// Only where the cache file was resized the daemon is told of it. The handle
/// under which the content was fetched is closed in any case. If the daemon
/// took the content, the end makes the size the new one, as far as one is
/// known; if it did not, the end changes nothing.
pub proof fn resizing_commits_only_what_was_resized(
    states: spec_fn(nat) -> FsView,
    inode: u64,
    path: Seq<char>,
    size: u64,
    answers: spec_fn(Request<Seq<char>>) -> Result<JsonView, IpcErrorView>,
    resized: bool,
)
    requires
        states(0).paths.path(inode) == Some(path),
        size > 0,
    ensures
        ({
            let step = states(0).setattr(inode, None, Some(size)).1;
            let id = handle_text("truncN-"@, states(0).next_handle_id);
            let fetch = Request::OpenRead { handle_id: id, path };
            match answered_path(answers(fetch)) {
                Err(e) => asked(states, 1, inode, step, answers, resized, 5) == seq![fetch]
                    && ended(states, 1, inode, step, answers, resized, 5) == Setattr::<
                    Seq<char>,
                >::Failed(errno_of(e)) && left(states, 1, inode, step, answers, resized, 5)
                    == states(1),
                Ok(cache_path) => {
                    let upload = Request::OpenWrite { handle_id: id, path, cache_path };
                    let close = Request::CloseHandle { handle_id: id };
                    if !resized {
                        &&& asked(states, 1, inode, step, answers, resized, 5) == seq![fetch, close]
                        &&& ended(states, 1, inode, step, answers, resized, 5) == Setattr::<
                            Seq<char>,
                        >::Failed(EIO)
                        &&& left(states, 1, inode, step, answers, resized, 5) == states(3)
                    } else {
                        &&& asked(states, 1, inode, step, answers, resized, 5) == seq![
                            fetch,
                            upload,
                            close,
                        ]
                        &&& match answered_path(answers(upload)) {
                            Ok(_) => ended(states, 1, inode, step, answers, resized, 5) is Refresh
                                && left(states, 1, inode, step, answers, resized, 5)
                                == states(4).with_size(inode, size),
                            Err(e) => ended(states, 1, inode, step, answers, resized, 5)
                                == Setattr::<Seq<char>>::Failed(errno_of(e)) && left(
                                states,
                                1,
                                inode,
                                step,
                                answers,
                                resized,
                                5,
                            ) == states(4),
                        }
                    }
                },
            }
        }),
{
    reveal_with_fuel(asked, 6);
    reveal_with_fuel(ended, 6);
    reveal_with_fuel(left, 6);
    let step = states(0).setattr(inode, None, Some(size)).1;
    let id = handle_text("truncN-"@, states(0).next_handle_id);
    let fetch = Request::OpenRead { handle_id: id, path };
    let close = Request::CloseHandle { handle_id: id };
    match answered_path(answers(fetch)) {
        Err(e) => {
            assert(asked(states, 1, inode, step, answers, resized, 5) =~= seq![fetch]);
        },
        Ok(cache_path) => {
            let upload = Request::OpenWrite { handle_id: id, path, cache_path };
            if resized {
                assert(asked(states, 1, inode, step, answers, resized, 5) =~= seq![
                    fetch,
                    upload,
                    close,
                ]);
            } else {
                assert(asked(states, 1, inode, step, answers, resized, 5) =~= seq![fetch, close]);
            }
        },
    }
}

/// Until the end of a `setattr` that names no open file, no size changes.
pub proof fn sizes_wait_for_the_end(
    v: FsView,
    inode: u64,
    fh: Option<u64>,
    size: Option<u64>,
    waiting: Waiting<Seq<char>>,
    reply: Result<JsonView, IpcErrorView>,
)
    requires
        !(waiting is Closing),
    ensures
        v.setattr(inode, fh, size).0.attrs == v.attrs,
        v.setattr_replied(inode, waiting, reply).0.attrs == v.attrs,
{
}

/// Changing anything but the size asks nothing of the daemon and changes
/// nothing.
pub proof fn other_attributes_are_ignored(v: FsView, inode: u64, fh: Option<u64>)
    requires
        v.paths.paths.contains_key(inode),
    ensures
        v.setattr(inode, fh, None) == (v, Setattr::<Seq<char>>::Refresh),
{
}

/// Resizing an open file asks nothing of the daemon. The file is dirty
/// afterwards if it was resized; if it was not, nothing changed.
pub proof fn open_file_is_resized_in_place(
    v: FsView,
    inode: u64,
    fh: u64,
    size: u64,
    ok: bool,
)
    requires
        v.paths.paths.contains_key(inode),
        v.handles.contains_key(fh),
    ensures
        v.setattr(inode, Some(fh), Some(size)) == (
            v,
            Setattr::<Seq<char>>::ResizeHandle { fh, size },
        ),
        ok ==> v.handle_resized(inode, fh, size, ok).0.handles[fh].dirty,
        ok ==> v.handle_resized(inode, fh, size, ok).1 is Refresh,
        !ok ==> v.handle_resized(inode, fh, size, ok) == (v, Setattr::<Seq<char>>::Failed(EIO)),
{
}

/// From `before` to `after` no inode came into use that had been given out.
pub open spec fn only_new_inodes(before: PathMapView, after: PathMapView) -> bool {
    &&& before.next <= after.next
    &&& forall|i: u64| #[trigger]
        after.paths.contains_key(i) ==> before.paths.contains_key(i) || before.next <= i
}

/// What holds from one state to the next and from there to a third holds from
/// the first to the third.
pub proof fn only_new_inodes_is_transitive(a: PathMapView, b: PathMapView, c: PathMapView)
    requires
        only_new_inodes(a, b),
        only_new_inodes(b, c),
    ensures
        only_new_inodes(a, c),
{
}

proof fn lemma_listing_gives_new_inodes(v: FsView, entries: Seq<ListEntryView>)
    requires
        v.wf(),
        v.fits(entries.len()),
    ensures
        only_new_inodes(v.paths, v.populated(entries).paths),
    decreases entries.len(),
{
    if entries.len() > 0 {
        lemma_listing_gives_new_inodes(v, entries.drop_last());
        lemma_populated(v, entries.drop_last());
    }
}

/// No operation brings an inode back into use that was given out before, be it
/// still in use or not: what is listed, made, removed or renamed keeps its
/// inode or gets a new one.
pub proof fn inodes_are_never_recycled(
    v: FsView,
    entries: Seq<ListEntryView>,
    path: Seq<char>,
    to: Seq<char>,
    a: CachedAttr,
)
    requires
        v.wf(),
        v.fits(entries.len()),
        v.fits(1),
    ensures
        only_new_inodes(v.paths, v.populated(entries).paths),
        only_new_inodes(v.paths, v.with_entry(path, a).paths),
        only_new_inodes(v.paths, v.without_entry(path).paths),
        only_new_inodes(v.paths, v.paths.renamed(path, to)),
{
    lemma_listing_gives_new_inodes(v, entries);
}

}
