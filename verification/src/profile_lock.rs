//! The lock on a profile.

use crate::text::join;
use vstd::prelude::*;
use vstd::string::StringExecFns;

verus! {

/// The error number of a lock that another process holds.
pub const EWOULDBLOCK: i32 = 11;

/// Why a profile is not locked.
#[derive(Debug)]
pub enum ProfileLockError {
    /// The lock file could not be opened.
    Open { path: String, source: String },
    /// Another process holds the lock.
    Held { path: String },
    /// The lock could not be had for another reason.
    Flock { path: String, source: String },
}

/// A [`ProfileLockError`] as it is seen.
pub enum ProfileLockErrorView {
    Open { path: Seq<char>, source: Seq<char> },
    Held { path: Seq<char> },
    Flock { path: Seq<char>, source: Seq<char> },
}

impl View for ProfileLockError {
    type V = ProfileLockErrorView;

    open spec fn view(&self) -> ProfileLockErrorView {
        match self {
            ProfileLockError::Open { path, source } => ProfileLockErrorView::Open {
                path: path@,
                source: source@,
            },
            ProfileLockError::Held { path } => ProfileLockErrorView::Held { path: path@ },
            ProfileLockError::Flock { path, source } => ProfileLockErrorView::Flock {
                path: path@,
                source: source@,
            },
        }
    }
}

impl ProfileLockErrorView {
    /// The message shown to people.
    pub open spec fn message(self) -> Seq<char> {
        match self {
            ProfileLockErrorView::Open { path, source } => "failed to open profile lock file "@
                + path + ": "@ + source,
            ProfileLockErrorView::Held { path } => "Profile lock "@ + path
                + " is held by another unidrive process; refusing mount."@,
            ProfileLockErrorView::Flock { path, source } => "flock("@ + path + ") failed: "@
                + source,
        }
    }
}

impl ProfileLockError {
    /// The message shown to people.
    pub fn message(&self) -> (r: String)
        ensures
            r@ == self@.message(),
    {
        match self {
            ProfileLockError::Open { path, source } => {
                let mut r = join("failed to open profile lock file ", path.as_str());
                r.append(": ");
                r.append(source.as_str());
                r
            },
            ProfileLockError::Held { path } => {
                let mut r = join("Profile lock ", path.as_str());
                r.append(" is held by another unidrive process; refusing mount.");
                r
            },
            ProfileLockError::Flock { path, source } => {
                let mut r = join("flock(", path.as_str());
                r.append(") failed: ");
                r.append(source.as_str());
                r
            },
        }
    }
}

/// The error of a lock file that could not be opened.
pub fn open_error(path: &str, why: String) -> (r: ProfileLockError)
    ensures
        r@ == (ProfileLockErrorView::Open { path: path@, source: why@ }),
{
    ProfileLockError::Open { path: path.to_owned(), source: why }
}

/// Why an open lock file could not be locked: the error number, where there is
/// one, and its text, in `S`.
#[derive(Debug)]
pub struct LockFailure<S> {
    pub errno: Option<i32>,
    pub text: S,
}

impl View for LockFailure<String> {
    type V = LockFailure<Seq<char>>;

    open spec fn view(&self) -> LockFailure<Seq<char>> {
        LockFailure { errno: self.errno, text: self.text@ }
    }
}

/// What an attempt to lock the open lock file `path` comes to, which failed or
/// not.
pub open spec fn acquired(path: Seq<char>, failure: Option<LockFailure<Seq<char>>>) -> Result<
    (),
    ProfileLockErrorView,
> {
    match failure {
        None => Ok(()),
        Some(failure) => if failure.errno == Some(EWOULDBLOCK) {
            Err(ProfileLockErrorView::Held { path })
        } else {
            Err(ProfileLockErrorView::Flock { path, source: failure.text })
        },
    }
}

/// What an attempt to lock the open lock file `path` without waiting comes to.
pub fn acquire(path: &str, failure: Option<LockFailure<String>>) -> (r: Result<
    (),
    ProfileLockError,
>)
    ensures
        ({
            let expected = acquired(
                path@,
                match failure {
                    Some(failure) => Some(failure@),
                    None => None,
                },
            );
            match r {
                Ok(()) => expected == Ok::<(), ProfileLockErrorView>(()),
                Err(e) => expected == Err::<(), ProfileLockErrorView>(e@),
            }
        }),
{
    let failure = match failure {
        None => return Ok(()),
        Some(failure) => failure,
    };
    match failure.errno {
        Some(errno) => if errno == EWOULDBLOCK {
            return Err(ProfileLockError::Held { path: path.to_owned() });
        },
        None => {},
    }
    Err(ProfileLockError::Flock { path: path.to_owned(), source: failure.text })
}

/// Something that happens to a lock file.
pub enum LockEvent {
    /// Its lock is asked for, through an open of its own.
    Acquire,
    /// The lock that is held is dropped.
    Drop,
}

/// How an attempt to lock a file fails, if it does, whose lock is held through
/// another open or not.
pub type Flock = spec_fn(bool) -> Option<LockFailure<Seq<char>>>;

/// A lock that nobody holds is had, and one that is held is refused with
/// [`EWOULDBLOCK`].
pub open spec fn excludes(flock: Flock) -> bool {
    &&& flock(false) is None
    &&& flock(true) matches Some(failure) && failure.errno == Some(EWOULDBLOCK)
}

/// The lock of a file is held after `events`.
pub open spec fn is_held(path: Seq<char>, flock: Flock, events: Seq<LockEvent>) -> bool
    decreases events.len(),
{
    if events.len() == 0 {
        false
    } else {
        let before = is_held(path, flock, events.drop_last());
        match events.last() {
            LockEvent::Acquire => before || acquired(path, flock(before)) is Ok,
            LockEvent::Drop => false,
        }
    }
}

/// What asking for the lock of a file comes to after `events`.
pub open spec fn attempted(path: Seq<char>, flock: Flock, events: Seq<LockEvent>) -> Result<
    (),
    ProfileLockErrorView,
> {
    acquired(path, flock(is_held(path, flock, events)))
}

/// A lock is held by one at a time: once it was asked for, whoever asks for it
/// is refused, however often, until it is dropped; then it is had again.
pub proof fn lock_is_held_until_dropped(
    path: Seq<char>,
    flock: Flock,
    before: Seq<LockEvent>,
    attempts: Seq<LockEvent>,
)
    requires
        excludes(flock),
        forall|i: int| 0 <= i < attempts.len() ==> (#[trigger] attempts[i]) is Acquire,
    ensures
        attempted(path, flock, Seq::empty()) is Ok,
        attempted(path, flock, before.push(LockEvent::Acquire) + attempts) == Err::<
            (),
            ProfileLockErrorView,
        >(ProfileLockErrorView::Held { path }),
        attempted(
            path,
            flock,
            (before.push(LockEvent::Acquire) + attempts).push(LockEvent::Drop),
        ) is Ok,
    decreases attempts.len(),
{
    let all = before.push(LockEvent::Acquire) + attempts;
    assert(all.push(LockEvent::Drop).drop_last() =~= all);
    if attempts.len() == 0 {
        assert(all.drop_last() =~= before);
    } else {
        let rest = attempts.drop_last();
        assert forall|i: int| 0 <= i < rest.len() implies (#[trigger] rest[i]) is Acquire by {
            assert(attempts[i] == rest[i]);
        }
        lock_is_held_until_dropped(path, flock, before, rest);
        assert(all.drop_last() =~= before.push(LockEvent::Acquire) + rest);
        assert(attempts[attempts.len() - 1] is Acquire);
    }
}

/// The message about a held lock says that the mount is refused.
pub proof fn held_lock_refuses_the_mount(path: Seq<char>)
    ensures
        ({
            let message = (ProfileLockErrorView::Held { path }).message();
            message.subrange(message.len() - 15, message.len() as int) == "refusing mount."@
        }),
{
    reveal_strlit("Profile lock ");
    reveal_strlit(" is held by another unidrive process; refusing mount.");
    reveal_strlit("refusing mount.");
    let message = (ProfileLockErrorView::Held { path }).message();
    assert(message.subrange(message.len() - 15, message.len() as int) =~= "refusing mount."@);
}

/// A lock is had exactly if locking did not fail. It is held by another exactly
/// if the failure says that it would have to wait; any other failure is told as
/// it is. Each error names the lock file.
pub proof fn lock_errors_say_what_failed(path: Seq<char>, failure: LockFailure<Seq<char>>)
    ensures
        acquired(path, None) == Ok::<(), ProfileLockErrorView>(()),
        failure.errno == Some(11i32) ==> acquired(path, Some(failure)) == Err::<
            (),
            ProfileLockErrorView,
        >(ProfileLockErrorView::Held { path }),
        failure.errno != Some(11i32) ==> acquired(path, Some(failure)) == Err::<
            (),
            ProfileLockErrorView,
        >(ProfileLockErrorView::Flock { path, source: failure.text }),
{
}

}
