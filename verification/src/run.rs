//! Starting up and shutting down.

use crate::cli::{arg_views, parse_args, parsed_args, Cli, CliError, CliErrorView, CliView};
use crate::kernel_floor::KernelFloorError;
use crate::text::{join, join3};
use vstd::prelude::*;
use vstd::string::StringExecFns;

verus! {

/// Success.
pub const EX_OK: u8 = 0;

/// A wrong command line.
pub const EX_USAGE: u8 = 64;

/// A machine that is not served.
pub const EX_CONFIG: u8 = 78;

/// Any other failure.
pub const EX_GENERIC_FAILURE: u8 = 1;

/// How the program ends, with its texts in `S`: its exit code, and what it
/// writes to the two output streams.
#[derive(Debug)]
pub struct Exit<S> {
    pub code: u8,
    pub out: S,
    pub err: S,
}

impl View for Exit<String> {
    type V = Exit<Seq<char>>;

    open spec fn view(&self) -> Exit<Seq<char>> {
        Exit { code: self.code, out: self.out@, err: self.err@ }
    }
}

/// What is written where the program runs as root.
pub open spec fn root_refusal() -> Seq<char> {
    "refusing to run as root; unidrive-mount is per-user. Re-run as a normal user."@
}

/// An end with a line on the error stream.
pub open spec fn failure(code: u8, message: Seq<char>) -> Exit<Seq<char>> {
    Exit { code, out: Seq::empty(), err: message + "\n"@ }
}

/// An end because of the command line.
pub open spec fn args_exit(e: CliErrorView) -> Exit<Seq<char>> {
    match e {
        CliErrorView::Help(text) => Exit { code: EX_OK, out: text, err: Seq::empty() },
        CliErrorView::Usage(text) => Exit { code: EX_USAGE, out: Seq::empty(), err: text },
    }
}

fn failed(code: u8, message: &str) -> (r: Exit<String>)
    ensures
        r@ == failure(code, message@),
{
    let r = Exit { code, out: String::new(), err: join(message, "\n") };
    assert(r@.out =~= Seq::empty());
    r
}

/// What the command line comes to: what is to be run, or the end.
pub fn check_args(argv: &[String]) -> (r: Result<Cli, Exit<String>>)
    ensures
        match r {
            Ok(cli) => parsed_args(arg_views(argv@)) == Ok::<CliView, CliErrorView>(cli@),
            Err(exit) => parsed_args(arg_views(argv@)) matches Err(e) && exit@ == args_exit(e),
        },
{
    match parse_args(argv) {
        Ok(cli) => Ok(cli),
        Err(CliError::Help(text)) => {
            let exit = Exit { code: EX_OK, out: text, err: String::new() };
            assert(exit@.err =~= Seq::empty());
            Err(exit)
        },
        Err(CliError::Usage(text)) => {
            let exit = Exit { code: EX_USAGE, out: String::new(), err: text };
            assert(exit@.out =~= Seq::empty());
            Err(exit)
        },
    }
}

/// What the machine comes to, once the command line is right: nothing, or the
/// end. A kernel that is not served is answered first, then a user who is
/// root.
pub fn check_machine(kernel: Result<(), KernelFloorError>, effective_uid: u32) -> (r: Option<
    Exit<String>,
>)
    ensures
        match (kernel, r) {
            (Err(e), Some(exit)) => exit@ == failure(EX_CONFIG, e@.message()),
            (Err(_), None) => false,
            (Ok(()), Some(exit)) => effective_uid == 0 && exit@ == failure(
                EX_GENERIC_FAILURE,
                root_refusal(),
            ),
            (Ok(()), None) => effective_uid != 0,
        },
{
    if let Err(e) = kernel {
        let message = e.message();
        return Some(failed(EX_CONFIG, message.as_str()));
    }
    if effective_uid == 0 {
        return Some(
            failed(
                EX_GENERIC_FAILURE,
                "refusing to run as root; unidrive-mount is per-user. Re-run as a normal user.",
            ),
        );
    }
    None
}

/// How the program ends once it has run, or failed to.
pub fn finish(result: Result<(), String>) -> (r: Exit<String>)
    ensures
        r@ == match result {
            Ok(()) => (Exit { code: EX_OK, out: Seq::empty(), err: Seq::empty() }),
            Err(message) => failure(EX_GENERIC_FAILURE, message@),
        },
{
    match result {
        Ok(()) => {
            let exit = Exit { code: EX_OK, out: String::new(), err: String::new() };
            assert(exit@.out =~= Seq::empty());
            assert(exit@.err =~= Seq::empty());
            exit
        },
        Err(message) => failed(EX_GENERIC_FAILURE, message.as_str()),
    }
}

/// What the run needs next, with an error in `S`.
#[derive(Debug)]
pub enum Stage<S> {
    /// A connection to the daemon.
    Connect,
    /// The lock on the profile.
    Lock,
    /// The recovery of cached content.
    Scan,
    /// The mount.
    Mount,
    /// A handler of the signal to terminate.
    CatchTerminate,
    /// A handler of the interrupt signal.
    CatchInterrupt,
    /// That it is waited for the end of the mount, or for a signal.
    Serve,
    /// The unmount.
    Unmount,
    /// Nothing: it has ended.
    Ended(Result<(), S>),
}

/// A [`Stage`] as it is seen.
pub type StageView = Stage<Seq<char>>;

impl View for Stage<String> {
    type V = StageView;

    open spec fn view(&self) -> StageView {
        match self {
            Stage::Connect => Stage::Connect,
            Stage::Lock => Stage::Lock,
            Stage::Scan => Stage::Scan,
            Stage::Mount => Stage::Mount,
            Stage::CatchTerminate => Stage::CatchTerminate,
            Stage::CatchInterrupt => Stage::CatchInterrupt,
            Stage::Serve => Stage::Serve,
            Stage::Unmount => Stage::Unmount,
            Stage::Ended(Ok(())) => Stage::Ended(Ok(())),
            Stage::Ended(Err(e)) => Stage::Ended(Err(e@)),
        }
    }
}

/// Where things lie, with texts in `S`.
#[derive(Debug)]
pub struct Places<S> {
    pub mount: S,
    pub ipc: S,
    pub cache: S,
    pub has_lock: bool,
}

impl View for Places<String> {
    type V = Places<Seq<char>>;

    open spec fn view(&self) -> Places<Seq<char>> {
        Places {
            mount: self.mount@,
            ipc: self.ipc@,
            cache: self.cache@,
            has_lock: self.has_lock,
        }
    }
}

/// What came of a stage, with texts in `S`.
#[derive(Debug)]
pub enum Outcome<S> {
    /// It was done. While serving: the mount has ended.
    Done,
    /// It failed, with this message. While serving: the mount has ended so.
    Failed(S),
    /// A signal came. It matters only while serving.
    Signal,
}

impl View for Outcome<String> {
    type V = Outcome<Seq<char>>;

    open spec fn view(&self) -> Outcome<Seq<char>> {
        match self {
            Outcome::Done => Outcome::Done,
            Outcome::Failed(e) => Outcome::Failed(e@),
            Outcome::Signal => Outcome::Signal,
        }
    }
}

/// The stage that follows one that was done.
pub open spec fn next_stage(stage: StageView, has_lock: bool) -> StageView {
    match stage {
        Stage::Connect => if has_lock {
            Stage::Lock
        } else {
            Stage::Scan
        },
        Stage::Lock => Stage::Scan,
        Stage::Scan => Stage::Mount,
        Stage::Mount => Stage::CatchTerminate,
        Stage::CatchTerminate => Stage::CatchInterrupt,
        Stage::CatchInterrupt => Stage::Serve,
        Stage::Serve => Stage::Ended(Ok(())),
        Stage::Unmount => Stage::Ended(Ok(())),
        Stage::Ended(r) => Stage::Ended(r),
    }
}

/// What is said of a stage that failed.
pub open spec fn stage_error(stage: StageView, places: Places<Seq<char>>, e: Seq<char>) -> Seq<
    char,
> {
    match stage {
        Stage::Connect => "failed to connect IPC at "@ + places.ipc + ": "@ + e,
        Stage::Lock => e,
        Stage::Scan => "cache_scanner failed at "@ + places.cache + ": "@ + e,
        Stage::Mount => "failed to mount FUSE at "@ + places.mount + ": "@ + e,
        Stage::CatchTerminate => "failed to install SIGTERM handler: "@ + e,
        Stage::CatchInterrupt => "failed to install SIGINT handler: "@ + e,
        Stage::Serve => "fuse session ended with error: "@ + e,
        Stage::Unmount => "unmount failed: "@ + e,
        Stage::Ended(_) => e,
    }
}

/// What follows a stage: the next one, the unmount where a signal ended the
/// serving, or the end.
pub open spec fn after_stage(
    stage: StageView,
    places: Places<Seq<char>>,
    outcome: Outcome<Seq<char>>,
) -> StageView {
    match (stage, outcome) {
        (Stage::Ended(_), _) => stage,
        (_, Outcome::Failed(e)) => Stage::Ended(Err(stage_error(stage, places, e))),
        (Stage::Serve, Outcome::Signal) => Stage::Unmount,
        (_, Outcome::Signal) => stage,
        (_, Outcome::Done) => next_stage(stage, places.has_lock),
    }
}

fn located(what: &str, place: &str, e: &str) -> (r: String)
    ensures
        r@ == what@ + place@ + ": "@ + e@,
{
    let mut r = join3(what, place, ": ");
    r.append(e);
    r
}

fn error_text(stage: &Stage<String>, places: &Places<String>, e: &str) -> (r: String)
    ensures
        r@ == stage_error(stage@, places@, e@),
{
    match stage {
        Stage::Connect => located("failed to connect IPC at ", places.ipc.as_str(), e),
        Stage::Lock => e.to_owned(),
        Stage::Scan => located("cache_scanner failed at ", places.cache.as_str(), e),
        Stage::Mount => located("failed to mount FUSE at ", places.mount.as_str(), e),
        Stage::CatchTerminate => join("failed to install SIGTERM handler: ", e),
        Stage::CatchInterrupt => join("failed to install SIGINT handler: ", e),
        Stage::Serve => join("fuse session ended with error: ", e),
        Stage::Unmount => join("unmount failed: ", e),
        Stage::Ended(_) => e.to_owned(),
    }
}

/// What the run needs first.
pub fn first_stage() -> (r: Stage<String>)
    ensures
        r@ == StageView::Connect,
{
    Stage::Connect
}

/// What the run needs after a stage.
pub fn advance(stage: Stage<String>, places: &Places<String>, outcome: Outcome<String>) -> (r:
    Stage<String>)
    ensures
        r@ == after_stage(stage@, places@, outcome@),
{
    match outcome {
        Outcome::Failed(e) => match stage {
            Stage::Ended(r) => Stage::Ended(r),
            _ => Stage::Ended(Err(error_text(&stage, places, e.as_str()))),
        },
        Outcome::Signal => match stage {
            Stage::Serve => Stage::Unmount,
            other => other,
        },
        Outcome::Done => match stage {
            Stage::Connect => if places.has_lock {
                Stage::Lock
            } else {
                Stage::Scan
            },
            Stage::Lock => Stage::Scan,
            Stage::Scan => Stage::Mount,
            Stage::Mount => Stage::CatchTerminate,
            Stage::CatchTerminate => Stage::CatchInterrupt,
            Stage::CatchInterrupt => Stage::Serve,
            Stage::Serve => Stage::Ended(Ok(())),
            Stage::Unmount => Stage::Ended(Ok(())),
            Stage::Ended(r) => Stage::Ended(r),
        },
    }
}

/// The stages of a run in which the outcomes come one after the other.
pub open spec fn stages(places: Places<Seq<char>>, outcomes: Seq<Outcome<Seq<char>>>) -> Seq<
    StageView,
>
    decreases outcomes.len(),
{
    if outcomes.len() == 0 {
        seq![Stage::Connect]
    } else {
        let before = stages(places, outcomes.drop_last());
        before.push(after_stage(before.last(), places, outcomes.last()))
    }
}

/// How far along a stage is.
pub open spec fn rank(stage: StageView) -> int {
    match stage {
        Stage::Connect => 0,
        Stage::Lock => 1,
        Stage::Scan => 2,
        Stage::Mount => 3,
        Stage::CatchTerminate => 4,
        Stage::CatchInterrupt => 5,
        Stage::Serve => 6,
        Stage::Unmount => 7,
        Stage::Ended(_) => 8,
    }
}

/// The stage at `i` was done.
pub open spec fn done_at(
    places: Places<Seq<char>>,
    outcomes: Seq<Outcome<Seq<char>>>,
    stage: StageView,
) -> bool {
    exists|i: int|
        0 <= i < outcomes.len() && #[trigger] stages(places, outcomes)[i] == stage && outcomes[i]
            == Outcome::<Seq<char>>::Done
}

proof fn lemma_stages(places: Places<Seq<char>>, outcomes: Seq<Outcome<Seq<char>>>)
    ensures
        stages(places, outcomes).len() == outcomes.len() + 1,
    decreases outcomes.len(),
{
    if outcomes.len() > 0 {
        lemma_stages(places, outcomes.drop_last());
    }
}

proof fn lemma_done_stays(
    places: Places<Seq<char>>,
    outcomes: Seq<Outcome<Seq<char>>>,
    stage: StageView,
)
    requires
        outcomes.len() > 0,
        done_at(places, outcomes.drop_last(), stage),
    ensures
        done_at(places, outcomes, stage),
{
    let rest = outcomes.drop_last();
    lemma_stages(places, rest);
    let i = choose|i: int|
        0 <= i < rest.len() && #[trigger] stages(places, rest)[i] == stage && rest[i] == Outcome::<
            Seq<char>,
        >::Done;
    assert(stages(places, outcomes)[i] == stages(places, rest)[i]);
}

/// Nothing is mounted before the daemon is connected, the profile locked where
/// a lock is asked for, and the recovery done, in this order: whenever the
/// mount is reached, each of these was done.
pub proof fn mount_comes_last(places: Places<Seq<char>>, outcomes: Seq<Outcome<Seq<char>>>)
    ensures
        rank(stages(places, outcomes).last()) >= 1 && !(stages(places, outcomes).last() is Ended)
            ==> done_at(places, outcomes, Stage::Connect),
        rank(stages(places, outcomes).last()) >= 2 && !(stages(places, outcomes).last() is Ended)
            && places.has_lock ==> done_at(places, outcomes, Stage::Lock),
        rank(stages(places, outcomes).last()) >= 3 && !(stages(places, outcomes).last() is Ended)
            ==> done_at(places, outcomes, Stage::Scan),
    decreases outcomes.len(),
{
    if outcomes.len() > 0 {
        let rest = outcomes.drop_last();
        mount_comes_last(places, rest);
        lemma_stages(places, rest);
        let before = stages(places, rest).last();
        let n = rest.len() as int;
        assert(stages(places, outcomes)[n] == before);
        assert(outcomes[n] == outcomes.last());
        if done_at(places, rest, Stage::Connect) {
            lemma_done_stays(places, outcomes, Stage::Connect);
        }
        if done_at(places, rest, Stage::Lock) {
            lemma_done_stays(places, outcomes, Stage::Lock);
        }
        if done_at(places, rest, Stage::Scan) {
            lemma_done_stays(places, outcomes, Stage::Scan);
        }
    }
}

/// A refused lock ends the run with the lock's message: nothing is recovered
/// and nothing is mounted.
pub proof fn refused_lock_never_mounts(
    places: Places<Seq<char>>,
    e: Seq<char>,
    later: Outcome<Seq<char>>,
)
    ensures
        after_stage(Stage::Lock, places, Outcome::Failed(e)) == StageView::Ended(Err(e)),
        after_stage(StageView::Ended(Err(e)), places, later) == StageView::Ended(Err(e)),
{
}

/// A run whose stages are all done connects, locks the profile where a lock is
/// asked for, recovers, mounts, catches the two signals, serves, and ends well.
/// A signal while it serves makes it unmount, and then end well; at any other
/// time it is of no matter. A stage that fails ends the run with its error, and
/// what has ended stays so.
pub proof fn stages_follow_each_other(
    places: Places<Seq<char>>,
    e: Seq<char>,
    r: Result<(), Seq<char>>,
    outcome: Outcome<Seq<char>>,
)
    ensures
        ({
            let after_done = |s: StageView| after_stage(s, places, Outcome::Done);
            &&& places.has_lock ==> after_done(Stage::Connect) == StageView::Lock
            &&& !places.has_lock ==> after_done(Stage::Connect) == StageView::Scan
            &&& after_done(Stage::Lock) == StageView::Scan
            &&& after_done(Stage::Scan) == StageView::Mount
            &&& after_done(Stage::Mount) == StageView::CatchTerminate
            &&& after_done(Stage::CatchTerminate) == StageView::CatchInterrupt
            &&& after_done(Stage::CatchInterrupt) == StageView::Serve
            &&& after_done(Stage::Serve) == StageView::Ended(Ok(()))
            &&& after_done(Stage::Unmount) == StageView::Ended(Ok(()))
        }),
        after_stage(Stage::Serve, places, Outcome::Signal) == StageView::Unmount,
        forall|s: StageView|
            !(s is Serve) ==> #[trigger] after_stage(s, places, Outcome::Signal) == s,
        forall|s: StageView|
            !(s is Ended) ==> (#[trigger] after_stage(s, places, Outcome::Failed(
                e,
            )) matches Stage::Ended(Err(why)) && why.len() >= e.len() && why.skip(
                why.len() - e.len(),
            ) == e),
        after_stage(Stage::Ended(r), places, outcome) == StageView::Ended(r),
{
    assert forall|s: StageView| !(s is Ended) implies (#[trigger] after_stage(
        s,
        places,
        Outcome::Failed(e),
    ) matches Stage::Ended(Err(why)) && why.len() >= e.len() && why.skip(why.len() - e.len())
        == e) by {
        let why = stage_error(s, places, e);
        assert(why.skip(why.len() - e.len()) =~= e);
    }
}

/// Help goes to the output and is a success; a mistake goes to the error stream
/// with the code of wrong usage; any other failure is a line on the error stream
/// with its code.
pub proof fn ends_go_to_their_streams(text: Seq<char>, code: u8)
    ensures
        args_exit(CliErrorView::Help(text)).code == 0,
        args_exit(CliErrorView::Help(text)).out == text,
        args_exit(CliErrorView::Help(text)).err.len() == 0,
        args_exit(CliErrorView::Usage(text)).code == 64,
        args_exit(CliErrorView::Usage(text)).err == text,
        args_exit(CliErrorView::Usage(text)).out.len() == 0,
        failure(code, text).code == code,
        failure(code, text).out.len() == 0,
        failure(code, text).err == text + seq!['\n'],
{
    reveal_strlit("\n");
    assert("\n"@ =~= seq!['\n']);
}

/// A kernel that is not served ends the program with the code of a wrong
/// configuration; on any other, a user who is root ends it as a failure; else it
/// goes on.
pub proof fn machines_are_refused_in_order(
    kernel: Result<(), KernelFloorError>,
    uid: u32,
    r: Option<Exit<String>>,
)
    requires
        call_ensures(check_machine, (kernel, uid), r),
    ensures
        kernel matches Err(e) ==> r is Some && r->Some_0.code == 78 && r->Some_0.err@
            == e@.message() + seq!['\n'] && r->Some_0.out@.len() == 0,
        kernel is Ok && uid == 0 ==> r is Some && r->Some_0.code == 1 && r->Some_0.out@.len() == 0
            && r->Some_0.err@
            == "refusing to run as root; unidrive-mount is per-user. Re-run as a normal user."@ + seq![
            '\n',
        ],
        kernel is Ok && uid != 0 ==> r is None,
{
    reveal_strlit("\n");
    assert("\n"@ =~= seq!['\n']);
}

/// A run that ended well is a success without a word; one that failed says why,
/// in a line on the error stream.
pub proof fn failures_say_why(result: Result<(), String>, r: Exit<String>)
    requires
        call_ensures(finish, (result,), r),
    ensures
        r.code == 0 <==> result is Ok,
        result is Ok ==> r.err@.len() == 0 && r.out@.len() == 0,
        result matches Err(why) ==> r.code == 1 && r.err@ == why@ + seq!['\n'] && r.out@.len() == 0,
{
    reveal_strlit("\n");
    assert("\n"@ =~= seq!['\n']);
}

/// A stage that has a place names it where it fails, and what is said ends with
/// why it failed; the lock says for itself what failed.
pub proof fn failed_stages_name_their_place(places: Places<Seq<char>>, e: Seq<char>)
    ensures
        stage_error(Stage::Connect, places, e) == "failed to connect IPC at "@ + places.ipc + ": "@
            + e,
        stage_error(Stage::Lock, places, e) == e,
        stage_error(Stage::Scan, places, e) == "cache_scanner failed at "@ + places.cache + ": "@
            + e,
        stage_error(Stage::Mount, places, e) == "failed to mount FUSE at "@ + places.mount + ": "@
            + e,
        stage_error(Stage::CatchTerminate, places, e) == "failed to install "@ + "SIGTERM"@
            + " handler: "@ + e,
        stage_error(Stage::CatchInterrupt, places, e) == "failed to install "@ + "SIGINT"@
            + " handler: "@ + e,
        stage_error(Stage::Serve, places, e) == "fuse session ended with error: "@ + e,
        stage_error(Stage::Unmount, places, e) == "unmount failed: "@ + e,
{
    reveal_strlit("failed to install ");
    reveal_strlit("SIGTERM");
    reveal_strlit("SIGINT");
    reveal_strlit(" handler: ");
    reveal_strlit("failed to install SIGTERM handler: ");
    reveal_strlit("failed to install SIGINT handler: ");
    assert(stage_error(Stage::CatchTerminate, places, e) =~= "failed to install "@ + "SIGTERM"@
        + " handler: "@ + e);
    assert(stage_error(Stage::CatchInterrupt, places, e) =~= "failed to install "@ + "SIGINT"@
        + " handler: "@ + e);
}

}
