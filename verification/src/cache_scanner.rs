//! Crash recovery: telling the daemon of cached content that it may have
//! missed.
//!
//! The cache is walked first. Then each file found is taken in turn: its time
//! is compared with the time of its last sync, and the daemon is told of what
//! is not older.

pub mod tree;

use crate::fuse_fs::handles::handle_text;
use crate::ipc::{
    answered_path, last_synced_reply, last_synced_result, path_answer, reply_view, IpcErrorView,
    Reply, Request,
};
use crate::json::JsonView;
use crate::text::{chars_of, decimal, decimal_text, join};
use crate::unix_path::{below, is_below, lossy, lossy_text, relative, strip_root};
use vstd::prelude::*;
use vstd::utf8::{decode_utf8, valid_utf8};

verus! {

/// What can go wrong with a walk.
#[derive(Debug)]
pub enum ScannerError {
    /// A directory could not be read to its end.
    Walk(String),
}

impl ScannerError {
    /// The message shown to people.
    pub fn message(&self) -> (r: String)
        ensures
            self matches ScannerError::Walk(why) ==> r@ == "walk error: "@ + why@,
    {
        match self {
            ScannerError::Walk(why) => join("walk error: ", why.as_str()),
        }
    }
}

/// What an entry of a directory is.
#[derive(Debug, Clone, Copy, PartialEq, Eq, Structural)]
pub enum EntryKind {
    Symlink,
    Folder,
    File,
    Other,
}

/// A walk through a cache directory.
pub struct Walk {
    root: Vec<u8>,
    stack: Vec<Vec<u8>>,
    found: Vec<(Vec<u8>, String)>,
}

/// What a [`Walk`] stands for: the canonical root, the directories still to
/// be read, and the files found, each with its remote path.
#[verifier::ext_equal]
pub struct WalkView {
    pub root: Seq<u8>,
    pub stack: Seq<Seq<u8>>,
    pub found: Seq<(Seq<u8>, Seq<char>)>,
}

/// Byte strings as they are seen.
pub open spec fn path_views(paths: Seq<Vec<u8>>) -> Seq<Seq<u8>> {
    paths.map_values(|p: Vec<u8>| p@)
}

/// Found files as they are seen.
pub open spec fn found_views(found: Seq<(Vec<u8>, String)>) -> Seq<(Seq<u8>, Seq<char>)> {
    found.map_values(|f: (Vec<u8>, String)| (f.0@, f.1@))
}

impl View for Walk {
    type V = WalkView;

    closed spec fn view(&self) -> WalkView {
        WalkView {
            root: self.root@,
            stack: path_views(self.stack@),
            found: found_views(self.found@),
        }
    }
}

/// `s` with every backslash turned into a slash.
pub open spec fn slashed(s: Seq<char>) -> Seq<char> {
    s.map_values(
        |c: char|
            if c == '\\' {
                '/'
            } else {
                c
            },
    )
}

/// The remote path of a cached file.
pub open spec fn remote_of(root: Seq<u8>, path: Seq<u8>) -> Seq<char> {
    "/"@ + slashed(lossy(relative(root, path)))
}

/// `remote` is a slash and then `rel`, character by character, but with a slash
/// in place of each backslash.
pub open spec fn spells(rel: Seq<char>, remote: Seq<char>) -> bool {
    &&& remote.len() == rel.len() + 1
    &&& remote[0] == '/'
    &&& forall|i: int| 0 <= i < rel.len() && rel[i] != '\\' ==> remote[i + 1] == #[trigger] rel[i]
    &&& forall|i: int| 0 <= i < rel.len() && #[trigger] rel[i] == '\\' ==> remote[i + 1] == '/'
}

/// The remote path of a cached file is the path below the root, character by
/// character, behind a slash; only backslashes become slashes. So a path without
/// backslashes is its own remote path behind the slash.
pub proof fn remote_path_spells_the_path(root: Seq<u8>, path: Seq<u8>)
    ensures
        spells(lossy(relative(root, path)), remote_of(root, path)),
        !lossy(relative(root, path)).contains('\\') ==> remote_of(root, path) == seq!['/'] + lossy(
            relative(root, path),
        ),
{
    reveal_strlit("/");
    let rel = lossy(relative(root, path));
    let remote = remote_of(root, path);
    assert("/"@ =~= seq!['/']);
    assert forall|i: int| 0 <= i < rel.len() implies remote[i + 1] == if rel[i] == '\\' {
        '/'
    } else {
        #[trigger] rel[i]
    } by {
        assert(remote[i + 1] == slashed(rel)[i]);
    }
    if !rel.contains('\\') {
        assert forall|i: int| 0 <= i < rel.len() implies remote[i + 1] == #[trigger] rel[i] by {
            assert(rel.contains(rel[i]));
        }
        assert(remote =~= seq!['/'] + rel);
    }
}

/// Different paths without backslashes have different remote paths, as far as
/// their texts are different.
pub proof fn remote_paths_are_distinct(root: Seq<u8>, a: Seq<u8>, b: Seq<u8>)
    requires
        !lossy(relative(root, a)).contains('\\'),
        !lossy(relative(root, b)).contains('\\'),
        remote_of(root, a) == remote_of(root, b),
    ensures
        lossy(relative(root, a)) == lossy(relative(root, b)),
{
    remote_path_spells_the_path(root, a);
    remote_path_spells_the_path(root, b);
    assert(lossy(relative(root, a)) =~= remote_of(root, a).skip(1));
    assert(lossy(relative(root, b)) =~= remote_of(root, b).skip(1));
}

impl WalkView {
    /// Nothing outside of the root is found or read.
    pub open spec fn wf(self) -> bool {
        &&& forall|i: int| 0 <= i < self.stack.len() ==> below(self.root, #[trigger] self.stack[i])
        &&& forall|i: int|
            0 <= i < self.found.len() ==> below(self.root, (#[trigger] self.found[i]).0)
                && self.found[i].1 == remote_of(self.root, self.found[i].0)
    }

    /// The walk after an entry was met. Links and special files are left
    /// alone, and so is what has no canonical path or lies outside of the
    /// root.
    pub open spec fn visited(self, kind: EntryKind, canonical: Option<Seq<u8>>) -> WalkView {
        match (kind, canonical) {
            (EntryKind::Folder, Some(path)) => if below(self.root, path) {
                WalkView { stack: self.stack.push(path), ..self }
            } else {
                self
            },
            (EntryKind::File, Some(path)) => if below(self.root, path) {
                WalkView { found: self.found.push((path, remote_of(self.root, path))), ..self }
            } else {
                self
            },
            _ => self,
        }
    }
}

/// A walk finds and reads nothing outside of its root, whatever it meets.
pub proof fn visits_stay_below(w: WalkView, kind: EntryKind, canonical: Option<Seq<u8>>)
    requires
        w.wf(),
    ensures
        w.visited(kind, canonical).wf(),
        w.visited(kind, canonical).root == w.root,
        kind is Symlink ==> w.visited(kind, canonical) == w,
{
    let after = w.visited(kind, canonical);
    assert forall|i: int| 0 <= i < after.stack.len() implies below(
        after.root,
        #[trigger] after.stack[i],
    ) by {
        if i < w.stack.len() {
            assert(after.stack[i] == w.stack[i]);
        }
    }
    assert forall|i: int| 0 <= i < after.found.len() implies below(
        after.root,
        (#[trigger] after.found[i]).0,
    ) && after.found[i].1 == remote_of(after.root, after.found[i].0) by {
        if i < w.found.len() {
            assert(after.found[i] == w.found[i]);
        }
    }
}

/// The walk after the entries of a directory were met, in order.
pub open spec fn after_entries(
    w: WalkView,
    entries: Seq<(EntryKind, Option<Seq<u8>>)>,
) -> WalkView
    decreases entries.len(),
{
    if entries.len() == 0 {
        w
    } else {
        after_entries(w, entries.drop_last()).visited(entries.last().0, entries.last().1)
    }
}

/// The entries of a kind that lie below `root`, in order.
pub open spec fn met(
    root: Seq<u8>,
    kind: EntryKind,
    entries: Seq<(EntryKind, Option<Seq<u8>>)>,
) -> Seq<Seq<u8>>
    decreases entries.len(),
{
    if entries.len() == 0 {
        Seq::empty()
    } else {
        let rest = met(root, kind, entries.drop_last());
        match entries.last() {
            (k, Some(path)) => if k == kind && below(root, path) {
                rest.push(path)
            } else {
                rest
            },
            _ => rest,
        }
    }
}

/// Files with their remote paths.
pub open spec fn with_remotes(root: Seq<u8>, files: Seq<Seq<u8>>) -> Seq<(Seq<u8>, Seq<char>)> {
    files.map_values(|f: Seq<u8>| (f, remote_of(root, f)))
}

/// Reading a directory finds exactly its files below the root, and leaves
/// exactly its directories below the root to be read, each in the order in
/// which they are met.
pub proof fn directory_is_read_whole(w: WalkView, entries: Seq<(EntryKind, Option<Seq<u8>>)>)
    ensures
        after_entries(w, entries).root == w.root,
        after_entries(w, entries).found == w.found + with_remotes(
            w.root,
            met(w.root, EntryKind::File, entries),
        ),
        after_entries(w, entries).stack == w.stack + met(w.root, EntryKind::Folder, entries),
    decreases entries.len(),
{
    if entries.len() == 0 {
        assert(w.found + with_remotes(w.root, Seq::empty()) =~= w.found);
        assert(w.stack + Seq::<Seq<u8>>::empty() =~= w.stack);
    } else {
        let rest = entries.drop_last();
        directory_is_read_whole(w, rest);
        let files = met(w.root, EntryKind::File, rest);
        let folders = met(w.root, EntryKind::Folder, rest);
        if let Some(path) = entries.last().1 {
            assert(with_remotes(w.root, files.push(path)) =~= with_remotes(w.root, files).push(
                (path, remote_of(w.root, path)),
            ));
            assert(w.stack + folders.push(path) =~= (w.stack + folders).push(path));
            assert(w.found + with_remotes(w.root, files).push((path, remote_of(w.root, path)))
                =~= (w.found + with_remotes(w.root, files)).push(
                (path, remote_of(w.root, path)),
            ));
        }
    }
}

fn slashed_text(s: &str) -> (r: String)
    ensures
        r@ == slashed(s@),
{
    let v = chars_of(s);
    let mut r = String::new();
    let mut i: usize = 0;
    assert(slashed(s@.take(0)) =~= Seq::empty());
    while i < v.len()
        invariant
            i <= v@.len(),
            v@ == s@,
            r@ == slashed(s@.take(i as int)),
        decreases v@.len() - i,
    {
        r.push(
            if v[i] == '\\' {
                '/'
            } else {
                v[i]
            },
        );
        i = i + 1;
        assert(slashed(s@.take(i as int)) =~= slashed(s@.take(i - 1)).push(
            slashed(s@)[i - 1],
        ));
    }
    assert(s@.take(s@.len() as int) =~= s@);
    r
}

fn remote_path(root: &[u8], path: &[u8]) -> (r: String)
    requires
        below(root@, path@),
    ensures
        r@ == remote_of(root@, path@),
        valid_utf8(relative(root@, path@)) ==> spells(decode_utf8(relative(root@, path@)), r@),
{
    let rel = strip_root(root, path);
    let text = lossy_text(rel.as_slice());
    let tail = slashed_text(text.as_str());
    proof {
        remote_path_spells_the_path(root@, path@);
    }
    join("/", tail.as_str())
}

impl Walk {
    /// A walk that begins at the canonical path `root`.
    pub fn new(root: Vec<u8>) -> (r: Walk)
        ensures
            r@ == (WalkView { root: root@, stack: seq![root@], found: Seq::empty() }),
            r@.wf(),
    {
        let mut stack: Vec<Vec<u8>> = Vec::new();
        let first = root.clone();
        stack.push(first);
        let r = Walk { root, stack, found: Vec::new() };
        assert(r@.stack =~= seq![root@]);
        assert(r@.found =~= Seq::empty());
        assert(root@.take(root@.len() as int) =~= root@);
        r
    }

    /// The directory to read next: the one that was met last.
    pub fn next_directory(&mut self) -> (r: Option<Vec<u8>>)
        requires
            old(self)@.wf(),
        ensures
            final(self)@.wf(),
            match r {
                None => old(self)@.stack.len() == 0 && final(self)@ == old(self)@,
                Some(dir) => old(self)@.stack.len() > 0 && dir@ == old(self)@.stack.last()
                    && final(self)@ == (WalkView {
                    stack: old(self)@.stack.drop_last(),
                    ..old(self)@
                }),
            },
    {
        let r = self.stack.pop();
        assert(r is Some ==> self@.stack =~= old(self)@.stack.drop_last());
        r
    }

    /// Whether the canonical path of an entry is needed at all.
    pub fn wants_canonical(kind: EntryKind) -> (r: bool)
        ensures
            r == (kind is Folder || kind is File),
    {
        match kind {
            EntryKind::Folder | EntryKind::File => true,
            EntryKind::Symlink | EntryKind::Other => false,
        }
    }

    /// Takes note of an entry of a directory, with its canonical path where
    /// that could be had.
    pub fn visit(&mut self, kind: EntryKind, canonical: Option<Vec<u8>>)
        requires
            old(self)@.wf(),
        ensures
            final(self)@.wf(),
            final(self)@ == old(self)@.visited(
                kind,
                match canonical {
                    Some(path) => Some(path@),
                    None => None,
                },
            ),
            canonical matches Some(path) ==> kind is File && below(old(self)@.root, path@)
                && valid_utf8(relative(old(self)@.root, path@)) ==> final(self)@.found.len() > 0
                && final(self)@.found.last().0 == path@ && spells(
                decode_utf8(relative(old(self)@.root, path@)),
                final(self)@.found.last().1,
            ),
    {
        let path = match canonical {
            Some(path) => path,
            None => return,
        };
        proof {
            visits_stay_below(self@, kind, Some(path@));
        }
        if !is_below(self.root.as_slice(), path.as_slice()) {
            return;
        }
        match kind {
            EntryKind::Folder => {
                self.stack.push(path);
                assert(self@ =~= old(self)@.visited(kind, Some(path@)));
            },
            EntryKind::File => {
                let remote = remote_path(self.root.as_slice(), path.as_slice());
                self.found.push((path, remote));
                assert(self@ =~= old(self)@.visited(kind, Some(path@)));
            },
            EntryKind::Symlink | EntryKind::Other => {},
        }
    }

    /// The files found, in the order in which they were met.
    pub fn collect_files(self) -> (r: Vec<(Vec<u8>, String)>)
        ensures
            found_views(r@) == self@.found,
    {
        self.found
    }
}

/// What the file system says of a cached file itself.
#[derive(Debug, Clone, Copy, PartialEq, Eq, Structural)]
pub struct FileTime {
    /// Whether it is a link.
    pub is_symlink: bool,
    /// When it was changed, in milliseconds since the epoch; nothing for a
    /// time before that.
    pub since_epoch: Option<u128>,
}

/// When a cached file was changed: nothing for what lies outside of the
/// cache, for a link, or where the time cannot be told.
pub open spec fn changed_at(root: Seq<u8>, path: Seq<u8>, time: Option<FileTime>) -> Option<i64> {
    match time {
        Some(time) => match time.since_epoch {
            Some(ms) => if below(root, path) && !time.is_symlink {
                Some(ms as i64)
            } else {
                None
            },
            None => None,
        },
        None => None,
    }
}

/// When a cached file was changed, from what the file system says of it.
pub fn mtime_ms(canon_path: &[u8], canon_root: &[u8], time: Option<FileTime>) -> (r: Option<i64>)
    ensures
        r == changed_at(canon_root@, canon_path@, time),
{
    if !is_below(canon_root, canon_path) {
        return None;
    }
    match time {
        Some(time) => match time.since_epoch {
            Some(ms) => if time.is_symlink {
                None
            } else {
                Some(ms as i64)
            },
            None => None,
        },
        None => None,
    }
}

/// A recovery: the files found are taken one after the other.
pub struct Scan {
    files: Vec<(Vec<u8>, String)>,
    next: usize,
    told: u64,
    replayed: usize,
}

/// What a [`Scan`] stands for: the files with their remote paths, which of
/// them has its turn, of how many the daemon was told, and how many of those
/// it took.
#[verifier::ext_equal]
pub struct ScanView {
    pub files: Seq<(Seq<u8>, Seq<char>)>,
    pub next: int,
    pub told: int,
    pub replayed: int,
}

impl View for Scan {
    type V = ScanView;

    closed spec fn view(&self) -> ScanView {
        ScanView {
            files: found_views(self.files@),
            next: self.next as int,
            told: self.told as int,
            replayed: self.replayed as int,
        }
    }
}

/// What a recovery needs next.
pub enum ScanStep {
    /// When the file was changed; [`Scan::stated`] goes on.
    Stat(Scan),
    /// When the file was synced last; [`Scan::synced`] goes on. The file was
    /// changed at the given time.
    Ask(Scan, i64),
    /// That the daemon is told of the file; [`Scan::told`] goes on.
    Tell(Scan),
    /// Nothing: the daemon took that many files.
    Done(usize),
}

/// A [`ScanStep`] as it is seen.
#[verifier::ext_equal]
pub enum ScanStepView {
    Stat(ScanView),
    Ask(ScanView, i64),
    Tell(ScanView),
    Done(int),
}

impl View for ScanStep {
    type V = ScanStepView;

    open spec fn view(&self) -> ScanStepView {
        match self {
            ScanStep::Stat(scan) => ScanStepView::Stat(scan@),
            ScanStep::Ask(scan, changed) => ScanStepView::Ask(scan@, *changed),
            ScanStep::Tell(scan) => ScanStepView::Tell(scan@),
            ScanStep::Done(n) => ScanStepView::Done(*n as int),
        }
    }
}

/// What the time of last sync is answered to be.
pub open spec fn watermark(reply: Result<JsonView, IpcErrorView>) -> Option<i64> {
    match reply {
        Err(_) => None,
        Ok(value) => match last_synced_result(value) {
            Ok(ms) => Some(ms),
            Err(_) => None,
        },
    }
}

/// Content that was changed at the given time is to be told of if it is not
/// older than its last sync, as far as that is known.
pub open spec fn is_due(changed: i64, reply: Result<JsonView, IpcErrorView>) -> bool {
    match watermark(reply) {
        Some(synced) => changed >= synced,
        None => false,
    }
}

/// The request that tells the daemon of cached content, the `n`-th of a
/// recovery.
pub open spec fn replay_request(n: int, file: (Seq<u8>, Seq<char>)) -> Request<Seq<char>> {
    Request::OpenWrite {
        handle_id: handle_text("recovery-"@, n as u64),
        path: file.1,
        cache_path: lossy(file.0),
    }
}

impl ScanView {
    pub open spec fn wf(self) -> bool {
        0 <= self.replayed <= self.told <= self.next <= self.files.len() <= usize::MAX
    }

    /// A file has its turn.
    pub open spec fn active(self) -> bool {
        self.wf() && self.next < self.files.len()
    }

    /// The file that has its turn.
    pub open spec fn file(self) -> (Seq<u8>, Seq<char>) {
        self.files[self.next]
    }

    /// The cache path of the file that has its turn.
    pub open spec fn cache_path(self) -> Seq<u8> {
        self.file().0
    }

    /// The request that asks when the file that has its turn was synced last.
    pub open spec fn question(self) -> Request<Seq<char>> {
        Request::LastSynced { path: self.file().1 }
    }

    /// What is needed first for the file that has its turn.
    pub open spec fn begin(self) -> ScanStepView {
        if self.next < self.files.len() {
            ScanStepView::Stat(self)
        } else {
            ScanStepView::Done(self.replayed)
        }
    }

    /// The next file's turn.
    pub open spec fn skip(self) -> ScanStepView {
        ScanView { next: self.next + 1, ..self }.begin()
    }

    /// What is needed once it is known when the file was changed, if at all.
    pub open spec fn stated(self, changed: Option<i64>) -> ScanStepView {
        match changed {
            None => self.skip(),
            Some(ms) => ScanStepView::Ask(self, ms),
        }
    }

    /// What is needed once the time of last sync was answered.
    pub open spec fn synced(
        self,
        changed: i64,
        reply: Result<JsonView, IpcErrorView>,
    ) -> ScanStepView {
        if is_due(changed, reply) {
            ScanStepView::Tell(self)
        } else {
            self.skip()
        }
    }

    /// The request that tells the daemon of the file that has its turn.
    pub open spec fn request(self) -> Request<Seq<char>> {
        replay_request(self.told + 1, self.file())
    }

    /// What is needed once the daemon has answered.
    pub open spec fn answered(self, reply: Result<JsonView, IpcErrorView>) -> ScanStepView {
        ScanView {
            told: self.told + 1,
            replayed: if answered_path(reply) is Ok {
                self.replayed + 1
            } else {
                self.replayed
            },
            ..self
        }.skip()
    }
}

impl Scan {
    fn begin(self) -> (r: ScanStep)
        requires
            self@.wf(),
        ensures
            r@ == self@.begin(),
    {
        assert(found_views(self.files@).len() == self.files@.len());
        if self.next < self.files.len() {
            ScanStep::Stat(self)
        } else {
            ScanStep::Done(self.replayed)
        }
    }

    fn skip(self) -> (r: ScanStep)
        requires
            self@.wf(),
            self@.next < self@.files.len(),
        ensures
            r@ == self@.skip(),
    {
        assert(found_views(self.files@).len() == self.files@.len());
        let scan = Scan { next: self.next + 1, ..self };
        assert(scan@ =~= ScanView { next: self@.next + 1, ..self@ });
        scan.begin()
    }

    /// Begins the recovery of the files that a walk found.
    pub fn scan_and_replay(files: Vec<(Vec<u8>, String)>) -> (r: ScanStep)
        ensures
            r@ == (ScanView {
                files: found_views(files@),
                next: 0,
                told: 0,
                replayed: 0,
            }).begin(),
    {
        assert(found_views(files@).len() == files.len());
        let scan = Scan { files, next: 0, told: 0, replayed: 0 };
        scan.begin()
    }

    /// The cache path of the file that has its turn.
    pub fn cache_path(&self) -> (r: &Vec<u8>)
        requires
            self@.active(),
        ensures
            r@ == self@.file().0,
            r@ == self@.cache_path(),
    {
        assert(found_views(self.files@).len() == self.files@.len());
        &self.files[self.next].0
    }

    /// Goes on once it is known when the file was changed, if at all.
    pub fn stated(self, changed: Option<i64>) -> (r: ScanStep)
        requires
            self@.active(),
        ensures
            r@ == self@.stated(changed),
    {
        match changed {
            None => self.skip(),
            Some(ms) => ScanStep::Ask(self, ms),
        }
    }

    /// The request that asks when the file was synced last.
    pub fn sync_request(&self) -> (r: Request<String>)
        requires
            self@.active(),
        ensures
            r@ == (Request::LastSynced { path: self@.file().1 }),
            r@ == self@.question(),
    {
        assert(found_views(self.files@).len() == self.files@.len());
        Request::LastSynced { path: self.files[self.next].1.clone() }
    }

    /// Goes on once the time of last sync was answered.
    pub fn synced(self, changed: i64, reply: Reply) -> (r: ScanStep)
        requires
            self@.active(),
        ensures
            r@ == self@.synced(changed, reply_view(reply)),
    {
        let value = match reply {
            Err(_) => return self.skip(),
            Ok(value) => value,
        };
        match last_synced_reply(&value) {
            Err(_) => self.skip(),
            Ok(synced) => if changed < synced {
                self.skip()
            } else {
                ScanStep::Tell(self)
            },
        }
    }

    /// The request that tells the daemon of the file.
    pub fn replay_request(&self) -> (r: Request<String>)
        requires
            self@.active(),
        ensures
            r@ == self@.request(),
    {
        assert(found_views(self.files@).len() == self.files@.len());
        let number = decimal_text(self.told + 1);
        let file = &self.files[self.next];
        Request::OpenWrite {
            handle_id: join("recovery-", number.as_str()),
            path: file.1.clone(),
            cache_path: lossy_text(file.0.as_slice()),
        }
    }

    /// Goes on once the daemon was told of the file and has answered.
    pub fn told(self, reply: Reply) -> (r: ScanStep)
        requires
            self@.active(),
        ensures
            r@ == self@.answered(reply_view(reply)),
    {
        assert(found_views(self.files@).len() == self.files@.len());
        let replayed: usize = if path_answer(reply).is_ok() {
            self.replayed + 1
        } else {
            self.replayed
        };
        let scan = Scan { told: self.told + 1, replayed, next: self.next + 1, ..self };
        assert(scan@ =~= ScanView {
            told: self@.told + 1,
            replayed: replayed as int,
            next: self@.next + 1,
            ..self@
        });
        scan.begin()
    }
}

/// How the world answers a recovery, while each file in turn is taken: when what
/// lies at a cache path was changed, and what the daemon answers to a request.
pub struct World {
    pub changed: spec_fn(int, Seq<u8>) -> Option<i64>,
    pub answers: spec_fn(int, Request<Seq<char>>) -> Result<JsonView, IpcErrorView>,
}

impl World {
    /// The daemon is to be told of the `i`-th file, which is `file`.
    pub open spec fn due(self, i: int, file: (Seq<u8>, Seq<char>)) -> bool {
        (self.changed)(i, file.0) matches Some(ms) && is_due(
            ms,
            (self.answers)(i, Request::LastSynced { path: file.1 }),
        )
    }
}

/// What the daemon is to be told of the first `n` files, in order.
pub open spec fn due_requests(files: Seq<(Seq<u8>, Seq<char>)>, world: World, n: int) -> Seq<
    Request<Seq<char>>,
>
    decreases n,
{
    if n <= 0 {
        Seq::empty()
    } else {
        let before = due_requests(files, world, n - 1);
        if world.due(n - 1, files[n - 1]) {
            before.push(replay_request(before.len() as int + 1, files[n - 1]))
        } else {
            before
        }
    }
}

/// How many of the first `n` files the daemon is told of and takes.
pub open spec fn taken_files(files: Seq<(Seq<u8>, Seq<char>)>, world: World, n: int) -> int
    decreases n,
{
    if n <= 0 {
        0
    } else {
        let told = due_requests(files, world, n - 1).len() as int + 1;
        let before = taken_files(files, world, n - 1);
        if world.due(n - 1, files[n - 1]) && answered_path(
            (world.answers)(n - 1, replay_request(told, files[n - 1])),
        ) is Ok {
            before + 1
        } else {
            before
        }
    }
}

/// What a recovery that stands at `step` tells the daemon, after `sent`, and
/// what it counts in the end.
pub open spec fn recovered(step: ScanStepView, world: World, sent: Seq<Request<Seq<char>>>) -> (
    Seq<Request<Seq<char>>>,
    int,
)
    decreases
            match step {
                ScanStepView::Stat(v) => 3 * (v.files.len() - v.next),
                ScanStepView::Ask(v, _) => 3 * (v.files.len() - v.next) - 1,
                ScanStepView::Tell(v) => 3 * (v.files.len() - v.next) - 2,
                ScanStepView::Done(_) => 0,
            },
{
    match step {
        ScanStepView::Stat(v) => if v.next < v.files.len() {
            recovered(v.stated((world.changed)(v.next, v.cache_path())), world, sent)
        } else {
            (sent, v.replayed)
        },
        ScanStepView::Ask(v, changed) => if v.next < v.files.len() {
            recovered(v.synced(changed, (world.answers)(v.next, v.question())), world, sent)
        } else {
            (sent, v.replayed)
        },
        ScanStepView::Tell(v) => if v.next < v.files.len() {
            recovered(v.answered((world.answers)(v.next, v.request())), world, sent.push(v.request()))
        } else {
            (sent, v.replayed)
        },
        ScanStepView::Done(n) => (sent, n),
    }
}

proof fn lemma_recovered(v: ScanView, world: World, sent: Seq<Request<Seq<char>>>)
    requires
        0 <= v.next <= v.files.len(),
        sent == due_requests(v.files, world, v.next),
        v.told == sent.len(),
        v.replayed == taken_files(v.files, world, v.next),
    ensures
        recovered(v.begin(), world, sent) == (
            due_requests(v.files, world, v.files.len() as int),
            taken_files(v.files, world, v.files.len() as int),
        ),
    decreases v.files.len() - v.next,
{
    if v.next < v.files.len() {
        let i = v.next;
        let skipped = ScanView { next: i + 1, ..v };
        match (world.changed)(i, v.files[i].0) {
            None => {
                assert(!world.due(i, v.files[i]));
                lemma_recovered(skipped, world, sent);
            },
            Some(ms) => {
                assert(recovered(v.begin(), world, sent) == recovered(
                    ScanStepView::Ask(v, ms),
                    world,
                    sent,
                ));
                if is_due(ms, (world.answers)(i, v.question())) {
                    let after = ScanView {
                        told: v.told + 1,
                        replayed: taken_files(v.files, world, i + 1),
                        next: i + 1,
                        ..v
                    };
                    let now = sent.push(v.request());
                    assert(recovered(ScanStepView::Ask(v, ms), world, sent) == recovered(
                        ScanStepView::Tell(v),
                        world,
                        sent,
                    ));
                    assert(v.answered((world.answers)(i, v.request())) == after.begin());
                    lemma_recovered(after, world, now);
                } else {
                    lemma_recovered(skipped, world, sent);
                }
            },
        }
    }
}

/// A recovery tells the daemon, in order and under rising numbers, of exactly
/// those files whose time is known and not before the time of their last
/// sync, and counts those that the daemon took.
pub proof fn recovery_replays_what_is_due(files: Seq<(Seq<u8>, Seq<char>)>, world: World)
    ensures
        recovered(
            (ScanView { files, next: 0, told: 0, replayed: 0 }).begin(),
            world,
            Seq::empty(),
        ) == (
            due_requests(files, world, files.len() as int),
            taken_files(files, world, files.len() as int),
        ),
{
    lemma_recovered(
        ScanView { files, next: 0, told: 0, replayed: 0 },
        world,
        Seq::empty(),
    );
}

/// A file whose time ties the time of its last sync is told of; one that is
/// older, or of which nothing is known, is not.
pub proof fn ties_are_replayed(changed: i64, reply: Result<JsonView, IpcErrorView>)
    ensures
        watermark(reply) == Some(changed) ==> is_due(changed, reply),
        watermark(reply) matches Some(synced) && changed < synced ==> !is_due(changed, reply),
        watermark(reply) is None ==> !is_due(changed, reply),
{
}

/// A regular file below the root is found, behind those that were found before,
/// with its remote path. A directory below the root is read later. What lies
/// elsewhere, or is neither, is left alone.
pub proof fn visits_take_what_lies_below(w: WalkView, path: Seq<u8>, kind: EntryKind)
    ensures
        ({
            let after = w.visited(kind, Some(path));
            &&& after.root == w.root
            &&& kind is File && below(w.root, path) ==> after.found == w.found + seq![
                (path, remote_of(w.root, path)),
            ] && after.stack == w.stack
            &&& kind is Folder && below(w.root, path) ==> after.stack == w.stack + seq![path]
                && after.found == w.found
            &&& !below(w.root, path) || kind is Symlink || kind is Other ==> after == w
        }),
        w.visited(kind, None) == w,
{
    let after = w.visited(kind, Some(path));
    if kind is File && below(w.root, path) {
        assert(after.found =~= w.found + seq![(path, remote_of(w.root, path))]);
    }
    if kind is Folder && below(w.root, path) {
        assert(after.stack =~= w.stack + seq![path]);
    }
}

/// The time of a cached file is the one that the file system says, of a file
/// that lies below the root and is no link; no other has one.
pub proof fn only_cached_files_have_times(
    root: Seq<u8>,
    path: Seq<u8>,
    is_symlink: bool,
    since_epoch: Option<u128>,
)
    requires
        since_epoch matches Some(ms) ==> ms <= i64::MAX,
    ensures
        changed_at(root, path, None) is None,
        match changed_at(root, path, Some(FileTime { is_symlink, since_epoch })) {
            Some(t) => below(root, path) && !is_symlink && since_epoch is Some && t
                == since_epoch->Some_0,
            None => !below(root, path) || is_symlink || since_epoch is None,
        },
{
}

/// The daemon said that the path was synced last at that time.
pub open spec fn synced_at(reply: Result<JsonView, IpcErrorView>, time: i64) -> bool {
    reply matches Ok(JsonView::Object(m)) && m.contains_key("ok"@) && m["ok"@] == JsonView::Bool(
        true,
    ) && m.contains_key("mtime_ms"@) && m["mtime_ms"@] == JsonView::Integer(time as int)
}

/// Content is to be told of exactly if the daemon said when it was synced last,
/// and it is not older than that.
pub proof fn due_means_not_older_than_the_sync(
    changed: i64,
    reply: Result<JsonView, IpcErrorView>,
)
    ensures
        is_due(changed, reply) <==> exists|time: i64| #[trigger]
            synced_at(reply, time) && changed >= time,
{
    if is_due(changed, reply) {
        assert(synced_at(reply, watermark(reply)->Some_0));
    }
    if exists|time: i64| #[trigger] synced_at(reply, time) && changed >= time {
        let time = choose|time: i64| #[trigger] synced_at(reply, time) && changed >= time;
        assert(watermark(reply) == Some(time));
    }
}

proof fn lemma_due_requests_grow(
    files: Seq<(Seq<u8>, Seq<char>)>,
    world: World,
    n: int,
    m: int,
    k: int,
)
    requires
        0 <= n <= m,
        0 <= k < due_requests(files, world, n).len(),
    ensures
        due_requests(files, world, n).len() <= due_requests(files, world, m).len(),
        due_requests(files, world, m)[k] == due_requests(files, world, n)[k],
    decreases m - n,
{
    if n < m {
        lemma_due_requests_grow(files, world, n, m - 1, k);
    }
}

/// A file is due: the time of its cache file is known, and it is not older than
/// the last sync of its remote path, of which the daemon knows.
pub open spec fn due_file(world: World, i: int, file: (Seq<u8>, Seq<char>)) -> bool {
    (world.changed)(i, file.0) matches Some(ms) && exists|time: i64| #[trigger]
        synced_at((world.answers)(i, Request::LastSynced { path: file.1 }), time) && ms >= time
}

/// What a recovery tells the daemon is, one for one and in order, of the due
/// files: a due file before which `k` others are due is the `k`-th to be told
/// of, under the number `k + 1`, by its remote path and its cache path. A file
/// that is not due is not told of. Of the files that are told of, those count
/// for which the daemon answers with a cache path.
pub proof fn due_files_are_told_of_in_order(
    files: Seq<(Seq<u8>, Seq<char>)>,
    world: World,
    i: int,
)
    requires
        0 <= i < files.len(),
    ensures
        ({
            let all = due_requests(files, world, files.len() as int);
            let k = due_requests(files, world, i).len();
            let telling = Request::OpenWrite {
                handle_id: seq!['r', 'e', 'c', 'o', 'v', 'e', 'r', 'y', '-'] + decimal(
                    (k + 1) as u64 as nat,
                ),
                path: files[i].1,
                cache_path: lossy(files[i].0),
            };
            &&& due_requests(files, world, 0).len() == 0
            &&& due_requests(files, world, i + 1).len() == if due_file(world, i, files[i]) {
                k + 1
            } else {
                k
            }
            &&& due_file(world, i, files[i]) ==> k < all.len() && all[k as int] == telling
            &&& taken_files(files, world, 0) == 0
            &&& taken_files(files, world, i + 1) == taken_files(files, world, i) + if due_file(
                world,
                i,
                files[i],
            ) && answered_path((world.answers)(i, telling)) is Ok {
                1int
            } else {
                0int
            }
        }),
{
    reveal_strlit("recovery-");
    assert("recovery-"@ =~= seq!['r', 'e', 'c', 'o', 'v', 'e', 'r', 'y', '-']);
    let question = Request::LastSynced { path: files[i].1 };
    if let Some(ms) = (world.changed)(i, files[i].0) {
        due_means_not_older_than_the_sync(ms, (world.answers)(i, question));
    }
    assert(world.due(i, files[i]) <==> due_file(world, i, files[i]));
    if due_file(world, i, files[i]) {
        let k = due_requests(files, world, i).len() as int;
        lemma_due_requests_grow(files, world, i + 1, files.len() as int, k);
    }
}

/// Files keep their order and get their remote paths.
pub proof fn remotes_go_with_their_files(root: Seq<u8>, files: Seq<Seq<u8>>, i: int)
    requires
        0 <= i < files.len(),
    ensures
        with_remotes(root, files).len() == files.len(),
        with_remotes(root, files)[i].0 == files[i],
        spells(lossy(relative(root, files[i])), with_remotes(root, files)[i].1),
{
    remote_path_spells_the_path(root, files[i]);
}

/// While a file has its turn, its own cache path is looked at, and the daemon is
/// asked about, and told of, its own remote path.
pub proof fn each_file_is_asked_about_itself(
    scan: Scan,
    at: &Vec<u8>,
    asked: Request<String>,
    told: Request<String>,
)
    requires
        scan@.active(),
        call_ensures(Scan::cache_path, (&scan,), at),
        call_ensures(Scan::sync_request, (&scan,), asked),
        call_ensures(Scan::replay_request, (&scan,), told),
    ensures
        at@ == scan@.files[scan@.next].0,
        asked@ == (Request::LastSynced { path: scan@.files[scan@.next].1 }),
        told@ matches Request::OpenWrite { path, cache_path, .. } && path
            == scan@.files[scan@.next].1 && cache_path == lossy(scan@.files[scan@.next].0),
{
}

/// A walk begins at its root with nothing found. The directory that was met last
/// is read next, and is then no longer waiting; nothing else changes. Only
/// directories and regular files need a canonical path. The files are handed
/// out as they were found.
pub proof fn walks_read_what_was_met_last(
    root: Vec<u8>,
    kind: EntryKind,
    begun: Walk,
    wanted: bool,
    walk: Walk,
    files: Vec<(Vec<u8>, String)>,
)
    requires
        call_ensures(Walk::new, (root,), begun),
        call_ensures(Walk::wants_canonical, (kind,), wanted),
        call_ensures(Walk::collect_files, (walk,), files),
    ensures
        begun@.root == root@,
        begun@.stack == seq![root@],
        begun@.found.len() == 0,
        wanted <==> kind is Folder || kind is File,
        files@.len() == walk@.found.len(),
        forall|i: int|
            0 <= i < files@.len() ==> (#[trigger] walk@.found[i]).0 == files@[i].0@
                && walk@.found[i].1 == files@[i].1@,
        forall|w: &mut Walk, r: Option<Vec<u8>>| #[trigger]
            call_ensures(Walk::next_directory, (w,), r) ==> {
                &&& (*final(w))@.root == (*w)@.root
                &&& (*final(w))@.found == (*w)@.found
                &&& match r {
                    Some(dir) => (*w)@.stack == (*final(w))@.stack.push(dir@),
                    None => (*w)@.stack.len() == 0 && (*final(w))@.stack.len() == 0,
                }
            },
{
    assert(found_views(files@).len() == files@.len());
    assert forall|w: &mut Walk, r: Option<Vec<u8>>| #[trigger]
        call_ensures(Walk::next_directory, (w,), r) implies {
        &&& (*final(w))@.root == (*w)@.root
        &&& (*final(w))@.found == (*w)@.found
        &&& match r {
            Some(dir) => (*w)@.stack == (*final(w))@.stack.push(dir@),
            None => (*w)@.stack.len() == 0 && (*final(w))@.stack.len() == 0,
        }
    } by {
        if let Some(dir) = r {
            assert((*w)@.stack =~= (*final(w))@.stack.push(dir@));
        }
    }
}

/// A recovery begins with the first file, if there is one, and has then told of
/// none; without files it is done.
pub proof fn recoveries_begin_with_the_first_file(
    files: Vec<(Vec<u8>, String)>,
    step: ScanStep,
)
    requires
        call_ensures(Scan::scan_and_replay, (files,), step),
    ensures
        files@.len() == 0 ==> step@ == ScanStepView::Done(0),
        files@.len() > 0 ==> (step@ matches ScanStepView::Stat(v) && v.next == 0 && v.told == 0
            && v.replayed == 0 && v.files.len() == files@.len() && v.files[0].0 == files@[0].0@
            && v.files[0].1 == files@[0].1@),
{
    assert(found_views(files@).len() == files@.len());
}

}
