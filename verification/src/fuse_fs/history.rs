//! What holds of every state that a mount comes to, whatever operations bring
//! it there.

use crate::fuse_fs::attrs::{root_attr, FileType, Owner};
use crate::fuse_fs::errno::{namespace_errno_of, EEXIST, EISDIR, ENOENT};
use crate::fuse_fs::handles::{handle_text, truncating, writable, PendingFile, PendingOpen};
use crate::fuse_fs::laws::{
    handle_ids_are_distinct, handles_given_out, inodes_are_never_recycled, only_new_inodes,
    only_new_inodes_is_transitive,
};
use crate::fuse_fs::listing::lemma_populated;
use crate::fuse_fs::names::{child_paths_agree, entry_path};
use crate::fuse_fs::namespace::{new_file, new_folder, CreatedFile};
use crate::fuse_fs::setattr::{Setattr, Waiting};
use crate::fuse_fs::{fresh, FsView, OpenHandle};
use crate::ipc::{answered_create, answered_path, IpcErrorView, ListEntryView, Request};
use crate::json::JsonView;
use crate::path_map::{PathMapView, ROOT_INODE};
use vstd::prelude::*;

verus! {

/// A part of an operation that can change the state of a mount.
#[allow(inconsistent_fields)]
pub enum Event {
    /// A directory was listed, or could not be.
    Listed { listing: Result<Seq<ListEntryView>, IpcErrorView> },
    Open { inode: u64, flags: u32 },
    Opened { file: PendingFile<Seq<char>>, ok: bool },
    Wrote { fh: u64, n: Option<usize> },
    Synced { fh: u64, ok: bool },
    Uploaded { fh: u64, reply: Result<JsonView, IpcErrorView> },
    Released { fh: u64 },
    Create { parent: u64, name: Option<Seq<char>> },
    Created { file: CreatedFile<Seq<char>>, ok: bool, now: Option<u128>, owner: Owner },
    MadeDirectory {
        path: Seq<char>,
        reply: Result<JsonView, IpcErrorView>,
        now: Option<u128>,
        owner: Owner,
    },
    Removed { path: Seq<char>, reply: Result<JsonView, IpcErrorView> },
    Moved { from: Seq<char>, to: Seq<char>, reply: Result<JsonView, IpcErrorView> },
    Setattr { inode: u64, fh: Option<u64>, size: Option<u64> },
    HandleResized { inode: u64, fh: u64, size: u64, ok: bool },
    SetattrReplied {
        inode: u64,
        waiting: Waiting<Seq<char>>,
        reply: Result<JsonView, IpcErrorView>,
    },
}

impl Event {
    /// What is removed or moved is not the root, which has no name to be
    /// removed or moved by.
    pub open spec fn spares_root(self) -> bool {
        match self {
            Event::Removed { path, .. } => path.len() > 0,
            Event::Moved { from, to, .. } => from.len() > 0 && to.len() > 0,
            _ => true,
        }
    }

    /// How many numbers the event may use up at most.
    pub open spec fn cost(self) -> nat {
        match self {
            Event::Listed { listing: Ok(entries) } => entries.len(),
            _ => 1,
        }
    }

    /// The event uses the open file.
    pub open spec fn uses(self, handle: u64) -> bool {
        match self {
            Event::Wrote { fh, .. } => fh == handle,
            Event::Synced { fh, .. } => fh == handle,
            Event::Uploaded { fh, .. } => fh == handle,
            Event::Released { fh } => fh == handle,
            Event::HandleResized { fh, .. } => fh == handle,
            _ => false,
        }
    }
}

impl FsView {
    /// The state after an event.
    pub open spec fn after_event(self, event: Event) -> FsView {
        match event {
            Event::Listed { listing } => self.after_listing(listing),
            Event::Open { inode, flags } => self.open(inode, flags).0,
            Event::Opened { file, ok } => self.opened(file, ok).0,
            Event::Wrote { fh, n } => self.wrote(fh, n).0,
            Event::Synced { fh, ok } => self.synced(fh, ok).0,
            Event::Uploaded { fh, reply } => self.uploaded(fh, reply).0,
            Event::Released { fh } => self.without_handle(fh),
            Event::Create { parent, name } => self.create(parent, name).0,
            Event::Created { file, ok, now, owner } => self.created(file, ok, now, owner).0,
            Event::MadeDirectory { path, reply, now, owner } => self.made_directory(
                path,
                reply,
                now,
                owner,
            ).0,
            Event::Removed { path, reply } => self.removed(path, reply).0,
            Event::Moved { from, to, reply } => self.moved(from, to, reply).0,
            Event::Setattr { inode, fh, size } => self.setattr(inode, fh, size).0,
            Event::HandleResized { inode, fh, size, ok } => self.handle_resized(
                inode,
                fh,
                size,
                ok,
            ).0,
            Event::SetattrReplied { inode, waiting, reply } => self.setattr_replied(
                inode,
                waiting,
                reply,
            ).0,
        }
    }

    /// The state after events, one after the other.
    pub open spec fn after_events(self, events: Seq<Event>) -> FsView
        decreases events.len(),
    {
        if events.len() == 0 {
            self
        } else {
            self.after_events(events.drop_last()).after_event(events.last())
        }
    }

    /// What a mount comes to: the root is there and has its inode, every open
    /// file has a file handle that was given out, and 0 is given out as neither.
    pub open spec fn sound(self) -> bool {
        &&& self.wf()
        &&& self.paths.path(ROOT_INODE) == Some(Seq::<char>::empty())
        &&& handles_given_out(self)
        &&& 0 < self.next_fh
        &&& 0 < self.next_handle_id
    }

    /// The numbers suffice for `n` more uses.
    pub open spec fn lasts(self, n: nat) -> bool {
        &&& self.paths.next + n < u64::MAX
        &&& self.next_fh + n < u64::MAX
        &&& self.next_handle_id + n < u64::MAX
        &&& n <= i64::MAX - 3
    }
}

/// How many numbers the events may use up at most.
pub open spec fn total_cost(events: Seq<Event>) -> nat
    decreases events.len(),
{
    if events.len() == 0 {
        0
    } else {
        total_cost(events.drop_last()) + events.last().cost()
    }
}

/// None of the events removes or moves the root.
pub open spec fn spare_root(events: Seq<Event>) -> bool {
    forall|i: int| 0 <= i < events.len() ==> (#[trigger] events[i]).spares_root()
}

/// A fresh mount, which clears away cached content below a directory, or not.
pub open spec fn mounted(cache_root: Option<Seq<u8>>) -> FsView {
    FsView { cache_root, ..fresh() }
}

/// The file handle that the event gives out.
pub open spec fn fh_given(v: FsView, event: Event) -> Option<u64> {
    match event {
        Event::Opened { file, ok } => match v.opened(file, ok).1 {
            Ok(fh) => Some(fh),
            Err(_) => None,
        },
        Event::Created { file, ok, now, owner } => match v.created(file, ok, now, owner).1 {
            Ok((fh, _, _)) => Some(fh),
            Err(_) => None,
        },
        _ => None,
    }
}

/// The prefix of the id for the daemon that the event gives out, if it does.
pub open spec fn id_prefix(v: FsView, event: Event) -> Option<Seq<char>> {
    match event {
        Event::Open { inode, flags } => if v.open(inode, flags).1 is Ok {
            Some(
                if writable(flags) {
                    "wh-"@
                } else {
                    "rh-"@
                },
            )
        } else {
            None
        },
        Event::Create { parent, name } => if v.create(parent, name).1 is Ok {
            Some("create-"@)
        } else {
            None
        },
        Event::Setattr { inode, fh, size } => match (v.paths.path(inode), fh, size) {
            (Some(_), None, Some(size)) => if size > 0 {
                Some("truncN-"@)
            } else {
                None
            },
            _ => None,
        },
        Event::SetattrReplied { waiting, reply, .. } => if waiting is Emptying && answered_path(
            reply,
        ) is Ok {
            Some("trunc0-"@)
        } else {
            None
        },
        _ => None,
    }
}

/// The id for the daemon that the event gives out.
pub open spec fn id_given(v: FsView, event: Event) -> Option<Seq<char>> {
    match id_prefix(v, event) {
        Some(prefix) => Some(handle_text(prefix, v.next_handle_id)),
        None => None,
    }
}

/// The numbering of paths is in order, and the root is in it.
spec fn rooted(m: PathMapView) -> bool {
    m.wf() && m.path(ROOT_INODE) == Some(Seq::<char>::empty())
}

proof fn lemma_rooted(m: PathMapView, path: Seq<char>, to: Seq<char>)
    requires
        rooted(m),
        m.next < u64::MAX,
    ensures
        rooted(m.interned(path)),
        path.len() > 0 ==> rooted(m.forgotten(path)),
        path.len() > 0 && to.len() > 0 ==> rooted(m.renamed(path, to)),
{
    assert(m.inodes.contains_key(Seq::empty()));
}

proof fn lemma_event_paths(v: FsView, event: Event)
    requires
        rooted(v.paths),
        event.spares_root(),
        v.lasts(event.cost()),
    ensures
        rooted(v.after_event(event).paths),
        v.paths.next <= v.after_event(event).paths.next <= v.paths.next + event.cost(),
{
    match event {
        Event::Listed { listing: Ok(entries) } => {
            lemma_populated(v, entries);
            inodes_are_never_recycled(v, entries, Seq::empty(), Seq::empty(), root_attr());
            assert(v.paths.inodes.contains_key(Seq::empty()));
        },
        Event::Created { file, .. } => {
            lemma_rooted(v.paths, file.path, Seq::empty());
        },
        Event::MadeDirectory { path, .. } => {
            lemma_rooted(v.paths, path, Seq::empty());
        },
        Event::Removed { path, .. } => {
            lemma_rooted(v.paths, path, Seq::empty());
        },
        Event::Moved { from, to, .. } => {
            lemma_rooted(v.paths, from, to);
        },
        _ => {},
    }
}

proof fn lemma_handles(v: FsView, h: OpenHandle<Seq<char>>, fh: u64, dirty: bool)
    requires
        handles_given_out(v),
        0 < v.next_fh < u64::MAX,
    ensures
        handles_given_out(v.with_handle(h)),
        handles_given_out(v.without_handle(fh)),
        v.handles.contains_key(fh) ==> handles_given_out(v.with_dirty(fh, dirty)),
{
}

proof fn lemma_event_handles(v: FsView, event: Event)
    requires
        v.wf(),
        handles_given_out(v),
        0 < v.next_fh,
        v.lasts(event.cost()),
    ensures
        handles_given_out(v.after_event(event)),
        v.after_event(event).next_fh == v.next_fh + if fh_given(v, event) is Some {
            1int
        } else {
            0
        },
{
    let after = v.after_event(event);
    match event {
        Event::Listed { listing: Ok(entries) } => {
            lemma_populated(v, entries);
        },
        Event::Opened { file, ok } => {
            if ok {
                lemma_handles(v, after.handles[v.next_fh], 0, false);
            }
        },
        Event::Created { file, ok, .. } => {
            if ok {
                lemma_handles(v, after.handles[v.next_fh], 0, false);
            }
        },
        Event::Wrote { fh, .. } => {
            lemma_handles(v, v.handles[fh], fh, true);
        },
        Event::Synced { fh, .. } => {
            lemma_handles(v, v.handles[fh], fh, false);
        },
        Event::Uploaded { fh, .. } => {
            lemma_handles(v, v.handles[fh], fh, true);
        },
        Event::Released { fh } => {
            lemma_handles(v, v.handles[fh], fh, true);
        },
        Event::HandleResized { fh, .. } => {
            lemma_handles(v, v.handles[fh], fh, true);
        },
        _ => {
            assert(after.handles == v.handles);
        },
    }
}

proof fn lemma_event_ids(v: FsView, event: Event)
    requires
        v.wf(),
        v.lasts(event.cost()),
    ensures
        v.after_event(event).next_handle_id == v.next_handle_id + if id_prefix(v, event) is Some {
            1int
        } else {
            0
        },
{
    if let Event::Listed { listing: Ok(entries) } = event {
        lemma_populated(v, entries);
    }
}

/// Whatever happens, a mount that is sound stays so, as long as its numbers
/// last; and no number is taken back.
pub proof fn soundness_is_kept(v: FsView, events: Seq<Event>)
    requires
        v.sound(),
        spare_root(events),
        v.lasts(total_cost(events)),
    ensures
        v.after_events(events).sound(),
        v.paths.next <= v.after_events(events).paths.next <= v.paths.next + total_cost(events),
        v.next_fh <= v.after_events(events).next_fh <= v.next_fh + total_cost(events),
        v.next_handle_id <= v.after_events(events).next_handle_id <= v.next_handle_id + total_cost(
            events,
        ),
    decreases events.len(),
{
    if events.len() > 0 {
        let rest = events.drop_last();
        let event = events.last();
        assert(events[events.len() - 1] == event);
        assert forall|i: int| 0 <= i < rest.len() implies (#[trigger] rest[i]).spares_root() by {
            assert(events[i] == rest[i]);
        }
        soundness_is_kept(v, rest);
        let before = v.after_events(rest);
        lemma_event_paths(before, event);
        lemma_event_handles(before, event);
        lemma_event_ids(before, event);
    }
}

/// Every state that a mount comes to is sound, as long as its numbers last.
pub proof fn every_state_is_sound(cache_root: Option<Seq<u8>>, events: Seq<Event>)
    requires
        spare_root(events),
        total_cost(events) <= i64::MAX - 3,
    ensures
        mounted(cache_root).sound(),
        mounted(cache_root).after_events(events).sound(),
{
    assert(""@ =~= Seq::empty()) by {
        reveal_strlit("");
    }
    soundness_is_kept(mounted(cache_root), events);
}

proof fn lemma_event_inodes(v: FsView, event: Event)
    requires
        v.sound(),
        v.lasts(event.cost()),
    ensures
        only_new_inodes(v.paths, v.after_event(event).paths),
{
    let none = Seq::<ListEntryView>::empty();
    let nowhere = Seq::<char>::empty();
    match event {
        Event::Listed { listing: Ok(entries) } => {
            inodes_are_never_recycled(v, entries, nowhere, nowhere, root_attr());
        },
        Event::Created { file, now, .. } => {
            inodes_are_never_recycled(v, none, file.path, nowhere, new_file(now));
        },
        Event::MadeDirectory { path, now, .. } => {
            inodes_are_never_recycled(v, none, path, nowhere, new_folder(now));
        },
        Event::Removed { path, .. } => {
            inodes_are_never_recycled(v, none, path, nowhere, root_attr());
        },
        Event::Moved { from, to, .. } => {
            inodes_are_never_recycled(v, none, from, to, root_attr());
        },
        _ => {},
    }
}

/// However long a mount lasts and whatever happens, no inode that was given out
/// comes back into use: an inode in use was in use at the start, or is newer.
pub proof fn inodes_never_come_back(v: FsView, events: Seq<Event>)
    requires
        v.sound(),
        spare_root(events),
        v.lasts(total_cost(events)),
    ensures
        only_new_inodes(v.paths, v.after_events(events).paths),
    decreases events.len(),
{
    if events.len() > 0 {
        let rest = events.drop_last();
        assert forall|i: int| 0 <= i < rest.len() implies (#[trigger] rest[i]).spares_root() by {
            assert(events[i] == rest[i]);
        }
        inodes_never_come_back(v, rest);
        soundness_is_kept(v, rest);
        lemma_event_inodes(v.after_events(rest), events.last());
        only_new_inodes_is_transitive(
            v.paths,
            v.after_events(rest).paths,
            v.after_events(events).paths,
        );
    }
}

/// What is removed, moved, or moved onto in the course of an operation has a
/// name, and so is not the root.
pub proof fn named_entries_are_not_the_root(v: FsView, parent: u64, name: Option<Seq<char>>)
    ensures
        v.child(parent, name) matches Ok(path) ==> path.len() > 0,
{
    reveal_strlit("/");
}

/// A file handle is given out at most once: after events of which the one at
/// `i` gave one out, no event gives out the same. None is 0.
pub proof fn file_handles_are_never_given_twice(
    v: FsView,
    events: Seq<Event>,
    i: int,
    later: Event,
)
    requires
        v.sound(),
        spare_root(events),
        v.lasts(total_cost(events)),
        0 <= i < events.len(),
        fh_given(v.after_events(events.take(i)), events[i]) is Some,
    ensures
        ({
            let fh = fh_given(v.after_events(events.take(i)), events[i])->Some_0;
            &&& 0 < fh < v.after_events(events).next_fh
            &&& fh_given(v.after_events(events), later) != Some(fh)
        }),
    decreases events.len(),
{
    let rest = events.drop_last();
    let event = events.last();
    assert(events[events.len() - 1] == event);
    assert forall|k: int| 0 <= k < rest.len() implies (#[trigger] rest[k]).spares_root() by {
        assert(events[k] == rest[k]);
    }
    soundness_is_kept(v, rest);
    lemma_event_handles(v.after_events(rest), event);
    if i < rest.len() {
        assert(rest.take(i) =~= events.take(i));
        assert(rest[i] == events[i]);
        file_handles_are_never_given_twice(v, rest, i, later);
    } else {
        assert(events.take(i) =~= rest);
    }
}

/// The ids that the daemon is given are those that the events give out.
pub proof fn ids_are_used_as_given(
    v: FsView,
    inode: u64,
    flags: u32,
    parent: u64,
    name: Option<Seq<char>>,
    fh: Option<u64>,
    size: Option<u64>,
    waiting: Waiting<Seq<char>>,
    reply: Result<JsonView, IpcErrorView>,
)
    ensures
        v.open(inode, flags).1 matches Ok(pending) ==> id_given(v, Event::Open { inode, flags })
            == Some(pending.handle_id),
        v.create(parent, name).1 matches Ok(pending) ==> id_given(
            v,
            Event::Create { parent, name },
        ) == Some(pending.handle_id),
        v.setattr(inode, fh, size).1 matches Setattr::Ask {
            request: Request::OpenRead { handle_id, .. },
            ..
        } ==> id_given(v, Event::Setattr { inode, fh, size }) == Some(handle_id),
        v.setattr_replied(inode, waiting, reply).1 matches Setattr::Ask {
            request: Request::OpenWrite { handle_id, .. },
            ..
        } ==> id_given(v, Event::SetattrReplied { inode, waiting, reply }) == Some(handle_id),
{
}

proof fn lemma_prefix(v: FsView, event: Event)
    requires
        id_prefix(v, event) is Some,
    ensures
        id_prefix(v, event)->Some_0.len() > 0,
        id_prefix(v, event)->Some_0.last() == '-',
{
    reveal_strlit("wh-");
    reveal_strlit("rh-");
    reveal_strlit("create-");
    reveal_strlit("truncN-");
    reveal_strlit("trunc0-");
}

/// An id for the daemon is given out at most once: after events of which the
/// one at `i` gave one out, no event gives out the same.
pub proof fn ids_are_never_given_twice(v: FsView, events: Seq<Event>, i: int, later: Event)
    requires
        v.sound(),
        spare_root(events),
        v.lasts(total_cost(events)),
        0 <= i < events.len(),
        id_given(v.after_events(events.take(i)), events[i]) is Some,
    ensures
        v.after_events(events.take(i)).next_handle_id < v.after_events(events).next_handle_id,
        id_given(v.after_events(events), later) != id_given(
            v.after_events(events.take(i)),
            events[i],
        ),
    decreases events.len(),
{
    let rest = events.drop_last();
    let event = events.last();
    assert(events[events.len() - 1] == event);
    assert forall|k: int| 0 <= k < rest.len() implies (#[trigger] rest[k]).spares_root() by {
        assert(events[k] == rest[k]);
    }
    soundness_is_kept(v, rest);
    lemma_event_ids(v.after_events(rest), event);
    if i < rest.len() {
        assert(rest.take(i) =~= events.take(i));
        assert(rest[i] == events[i]);
        ids_are_never_given_twice(v, rest, i, later);
    } else {
        assert(events.take(i) =~= rest);
    }
    let once = v.after_events(events.take(i));
    let now = v.after_events(events);
    lemma_prefix(once, events[i]);
    if id_prefix(now, later) is Some {
        lemma_prefix(now, later);
        handle_ids_are_distinct(
            id_prefix(once, events[i])->Some_0,
            once.next_handle_id,
            id_prefix(now, later)->Some_0,
            now.next_handle_id,
        );
    }
}

proof fn lemma_unused_handle(v: FsView, event: Event, fh: u64)
    requires
        v.sound(),
        v.lasts(event.cost()),
        v.handles.contains_key(fh),
        !event.uses(fh),
    ensures
        v.after_event(event).handles.contains_key(fh),
        v.after_event(event).handles[fh] == v.handles[fh],
{
    if let Event::Listed { listing: Ok(entries) } = event {
        lemma_populated(v, entries);
    }
}

/// Events that do not use an open file leave it as it is.
pub proof fn open_file_is_left_alone(v: FsView, events: Seq<Event>, fh: u64)
    requires
        v.sound(),
        spare_root(events),
        v.lasts(total_cost(events)),
        v.handles.contains_key(fh),
        forall|i: int| 0 <= i < events.len() ==> !(#[trigger] events[i]).uses(fh),
    ensures
        v.after_events(events).handles.contains_key(fh),
        v.after_events(events).handles[fh] == v.handles[fh],
    decreases events.len(),
{
    if events.len() > 0 {
        let rest = events.drop_last();
        assert(events[events.len() - 1] == events.last());
        assert forall|k: int| 0 <= k < rest.len() implies (#[trigger] rest[k]).spares_root() by {
            assert(events[k] == rest[k]);
        }
        assert forall|k: int| 0 <= k < rest.len() implies !(#[trigger] rest[k]).uses(fh) by {
            assert(events[k] == rest[k]);
        }
        open_file_is_left_alone(v, rest, fh);
        soundness_is_kept(v, rest);
        lemma_unused_handle(v.after_events(rest), events.last(), fh);
    }
}

/// Opening what has no path, or the root, is refused, and asks nothing of the
/// daemon. Any other open asks it once, under an id of its own: to make an
/// empty file where the file is opened for writing and to be emptied, else for
/// the content.
pub proof fn open_asks_by_its_flags(v: FsView, inode: u64, flags: u32)
    requires
        v.sound(),
    ensures
        v.paths.path(inode) is None ==> v.open(inode, flags) == (
            v,
            Err::<PendingOpen<Seq<char>>, i32>(ENOENT),
        ),
        inode == ROOT_INODE ==> v.open(inode, flags) == (
            v,
            Err::<PendingOpen<Seq<char>>, i32>(EISDIR),
        ),
        v.paths.paths.contains_key(inode) && inode != ROOT_INODE ==> ({
            let path = v.paths.paths[inode];
            &&& v.open(inode, flags).1 matches Ok(pending)
            &&& id_given(v, Event::Open { inode, flags }) == Some(pending.handle_id)
            &&& pending.request() == if truncating(flags) {
                Request::OpenWriteBegin { path, handle_id: Some(pending.handle_id) }
            } else {
                Request::OpenRead { handle_id: pending.handle_id, path }
            }
        }),
{
    if let Some(path) = v.paths.path(inode) {
        if path.len() == 0 {
            assert(path =~= Seq::empty());
        }
    }
}

/// A file that was opened has a file handle that is not 0. However long it
/// stays open without being used, and whatever else happens meanwhile, its
/// release tells the daemon of its content exactly if it was opened to be
/// emptied, and then that it is closed.
pub proof fn unused_file_is_committed_iff_emptied(
    v: FsView,
    inode: u64,
    flags: u32,
    reply: Result<JsonView, IpcErrorView>,
    later: FsView,
    events: Seq<Event>,
)
    requires
        v.open(inode, flags).1 is Ok,
        answered_path(reply) is Ok,
        later.sound(),
        later.lasts(total_cost(events) + 1),
        spare_root(events),
        forall|i: int| 0 <= i < events.len() ==> !(#[trigger] events[i]).uses(later.next_fh),
    ensures
        ({
            let pending = v.open(inode, flags).1->Ok_0;
            let cache_path = answered_path(reply)->Ok_0;
            let fh = later.next_fh;
            &&& pending.replied(reply) matches Ok(file) && later.opened(file, true).1 == Ok::<
                u64,
                i32,
            >(fh) && later.opened(file, true).0.after_events(events).release_requests(fh)
                == if truncating(flags) {
                seq![
                    Request::OpenWrite {
                        handle_id: pending.handle_id,
                        path: pending.path,
                        cache_path,
                    },
                    Request::CloseHandle { handle_id: pending.handle_id },
                ]
            } else {
                seq![Request::CloseHandle { handle_id: pending.handle_id }]
            }
            &&& fh != 0
        }),
{
    let pending = v.open(inode, flags).1->Ok_0;
    let file = PendingFile { open: pending, cache_path: answered_path(reply)->Ok_0 };
    let opening = Event::Opened { file, ok: true };
    lemma_event_paths(later, opening);
    lemma_event_handles(later, opening);
    lemma_event_ids(later, opening);
    open_file_is_left_alone(later.after_event(opening), events, later.next_fh);
}

/// Making a file asks the daemon once, under an id of its own. Where the
/// daemon refuses, nothing is numbered and nothing is open. Where it makes the
/// file, that is an empty regular file; its release, though nothing was
/// written, tells the daemon of its content and then that it is closed, under
/// the id that the daemon chose.
pub proof fn unused_new_file_is_committed(
    v: FsView,
    parent: u64,
    name: Seq<char>,
    reply: Result<JsonView, IpcErrorView>,
    later: FsView,
    now: Option<u128>,
    owner: Owner,
    events: Seq<Event>,
)
    requires
        v.paths.paths.contains_key(parent),
        v.paths.paths[parent].len() > 0 ==> v.paths.paths[parent].last() != '/',
        later.sound(),
        later.lasts(total_cost(events) + 1),
        spare_root(events),
        forall|i: int| 0 <= i < events.len() ==> !(#[trigger] events[i]).uses(later.next_fh),
    ensures
        ({
            let path = entry_path(v.paths.paths[parent], name);
            let id = handle_text("create-"@, v.next_handle_id);
            &&& v.create(parent, Some(name)).1 matches Ok(pending) && pending.request()
                == (Request::Create { handle_id: id, path }) && match answered_create(reply) {
                Err(e) => pending.replied(reply) == Err::<CreatedFile<Seq<char>>, i32>(
                    namespace_errno_of(e),
                ) && (e == IpcErrorView::ServerError("path_exists"@) ==> namespace_errno_of(e)
                    == EEXIST),
                Ok((cache_path, handle_id)) => pending.replied(reply) matches Ok(file)
                    && later.created(file, true, now, owner).1 matches Ok((fh, attr, ino)) && {
                    let after = later.created(file, true, now, owner).0;
                    &&& fh == later.next_fh
                    &&& attr.kind == FileType::RegularFile
                    &&& attr.size == 0
                    &&& attr.ino == ino
                    &&& after.paths.inode(path) == Some(ino)
                    &&& after.after_events(events).release_requests(fh) == seq![
                        Request::OpenWrite { handle_id, path, cache_path },
                        Request::CloseHandle { handle_id },
                    ]
                },
            }
            &&& v.create(parent, Some(name)).0.paths == v.paths
            &&& v.create(parent, Some(name)).0.handles == v.handles
        }),
{
    child_paths_agree(v.paths.paths[parent], name);
    match answered_create(reply) {
        Ok((cache_path, handle_id)) => {
            let file = CreatedFile {
                path: entry_path(v.paths.paths[parent], name),
                handle_id,
                cache_path,
            };
            let making = Event::Created { file, ok: true, now, owner };
            lemma_event_paths(later, making);
            lemma_event_handles(later, making);
            lemma_event_ids(later, making);
            open_file_is_left_alone(later.after_event(making), events, later.next_fh);
        },
        Err(_) => {
            reveal_strlit("path_exists");
            reveal_strlit("parent_not_found");
            reveal_strlit("unknown_path");
            reveal_strlit("old_path_not_found");
            reveal_strlit("new_parent_not_found");
            reveal_strlit("path_is_folder");
            reveal_strlit("path_is_file");
            reveal_strlit("not_empty");
            assert("path_exists"@.len() == 11);
        },
    }
}

}
