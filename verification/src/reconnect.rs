//! Keeping a connection to the daemon: when to connect again, and which
//! requests may be sent again.

use crate::ipc::{reply_view, IpcError, IpcErrorView, Reply, Request};
use crate::json::JsonView;
use vstd::prelude::*;

verus! {

/// How many seconds pass between two attempts to connect.
pub const DEFAULT_RETRY_INTERVAL_SECS: u64 = 5;

/// For how many seconds connecting is attempted before its error is given up
/// to the caller.
pub const DEFAULT_RETRY_BUDGET_SECS: u64 = 60;

/// What becomes of a request whose connection failed.
#[derive(Debug, Clone, Copy, PartialEq, Eq, Structural)]
pub enum Policy {
    /// It is sent again over a new connection.
    Retry,
    /// It is not sent again: it may have had its effect. A subscription is not
    /// repeated either: what it misses while there is no connection would be
    /// lost in silence.
    Once,
}

/// What becomes of a request whose connection failed: what only reads, or does
/// no harm a second time, is sent again.
pub open spec fn policy_of<S>(req: Request<S>) -> Policy {
    match req {
        Request::OpenRead { .. } => Policy::Retry,
        Request::CloseHandle { .. } => Policy::Retry,
        Request::Hydrate { .. } => Policy::Retry,
        Request::Dehydrate { .. } => Policy::Retry,
        Request::LastSynced { .. } => Policy::Retry,
        Request::List { .. } => Policy::Retry,
        Request::OpenWrite { .. } => Policy::Once,
        Request::OpenWriteBegin { .. } => Policy::Once,
        Request::Mkdir { .. } => Policy::Once,
        Request::Unlink { .. } => Policy::Once,
        Request::Rmdir { .. } => Policy::Once,
        Request::Create { .. } => Policy::Once,
        Request::Rename { .. } => Policy::Once,
        Request::Subscribe => Policy::Once,
    }
}

/// What becomes of a request whose connection failed.
pub fn policy(req: &Request<String>) -> (r: Policy)
    ensures
        r == policy_of(*req),
{
    match req {
        Request::OpenRead { .. } => Policy::Retry,
        Request::CloseHandle { .. } => Policy::Retry,
        Request::Hydrate { .. } => Policy::Retry,
        Request::Dehydrate { .. } => Policy::Retry,
        Request::LastSynced { .. } => Policy::Retry,
        Request::List { .. } => Policy::Retry,
        Request::OpenWrite { .. } => Policy::Once,
        Request::OpenWriteBegin { .. } => Policy::Once,
        Request::Mkdir { .. } => Policy::Once,
        Request::Unlink { .. } => Policy::Once,
        Request::Rmdir { .. } => Policy::Once,
        Request::Create { .. } => Policy::Once,
        Request::Rename { .. } => Policy::Once,
        Request::Subscribe => Policy::Once,
    }
}

/// What an exchange with the daemon needs next, with an answer in `R`.
#[derive(Debug)]
pub enum Exchange<R> {
    /// A connection, attempted at once; time is counted from here.
    Connect,
    /// A connection, attempted after the retry interval.
    ConnectLater,
    /// The request, sent over the connection.
    Send,
    /// Nothing: this is the answer.
    Done(R),
}

/// An exchange as it is seen.
pub type ExchangeView = Exchange<Result<JsonView, IpcErrorView>>;

impl View for Exchange<Reply> {
    type V = ExchangeView;

    open spec fn view(&self) -> ExchangeView {
        match self {
            Exchange::Connect => Exchange::Connect,
            Exchange::ConnectLater => Exchange::ConnectLater,
            Exchange::Send => Exchange::Send,
            Exchange::Done(reply) => Exchange::Done(reply_view(*reply)),
        }
    }
}

/// How an exchange begins.
pub open spec fn begin(connected: bool) -> ExchangeView {
    if connected {
        Exchange::Send
    } else {
        Exchange::Connect
    }
}

/// How it goes on after an attempt to connect, which failed with `failure` or
/// not at all. `elapsed` is the time since the first attempt; only once it has
/// reached the budget the error is given up to the caller.
pub open spec fn after_connect(
    failure: Option<IpcErrorView>,
    elapsed: u128,
    budget: u128,
) -> ExchangeView {
    match failure {
        None => Exchange::Send,
        Some(e) => if elapsed >= budget {
            Exchange::Done(Err(e))
        } else {
            Exchange::ConnectLater
        },
    }
}

/// The answer shows that the connection is broken.
pub open spec fn broken(reply: Result<JsonView, IpcErrorView>) -> bool {
    reply matches Err(IpcErrorView::Io(_))
}

/// How it goes on after the request was sent and answered.
pub open spec fn after_send(
    policy: Policy,
    reply: Result<JsonView, IpcErrorView>,
) -> ExchangeView {
    if broken(reply) && policy is Retry {
        Exchange::Connect
    } else {
        Exchange::Done(reply)
    }
}

/// Begins an exchange.
pub fn start_exchange(connected: bool) -> (r: Exchange<Reply>)
    ensures
        r@ == begin(connected),
{
    if connected {
        Exchange::Send
    } else {
        Exchange::Connect
    }
}

/// Goes on after an attempt to connect. `elapsed` is the time since the first
/// attempt and `budget` how long attempts are made, both in nanoseconds.
pub fn ensure_connected(attempt: Result<(), IpcError>, elapsed: u128, budget: u128) -> (r:
    Exchange<Reply>)
    ensures
        r@ == after_connect(
            match attempt {
                Ok(()) => None,
                Err(e) => Some(e@),
            },
            elapsed,
            budget,
        ),
{
    match attempt {
        Ok(()) => Exchange::Send,
        Err(e) => if elapsed >= budget {
            Exchange::Done(Err(e))
        } else {
            Exchange::ConnectLater
        },
    }
}

/// Goes on after the request was sent and answered. Also says whether the
/// connection can still be used.
pub fn answered(policy: Policy, reply: Reply) -> (r: (Exchange<Reply>, bool))
    ensures
        r.0@ == after_send(policy, reply_view(reply)),
        r.1 == !broken(reply_view(reply)),
{
    let broken = matches!(reply, Err(IpcError::Io(_)));
    if broken && matches!(policy, Policy::Retry) {
        (Exchange::Connect, false)
    } else {
        (Exchange::Done(reply), !broken)
    }
}

/// Something that happens in the course of an exchange.
pub enum Event {
    /// An attempt to connect, which failed or not, that long after the first.
    Connected { failure: Option<IpcErrorView>, elapsed: u128 },
    /// The request was sent and answered.
    Answered { reply: Result<JsonView, IpcErrorView> },
}

/// Where an exchange stands after `events`.
pub open spec fn stands(
    policy: Policy,
    budget: u128,
    connected: bool,
    events: Seq<Event>,
) -> ExchangeView
    decreases events.len(),
{
    if events.len() == 0 {
        begin(connected)
    } else {
        let before = stands(policy, budget, connected, events.drop_last());
        match (before, events.last()) {
            (Exchange::Send, Event::Answered { reply }) => after_send(policy, reply),
            (Exchange::Connect, Event::Connected { failure, elapsed }) => after_connect(
                failure,
                elapsed,
                budget,
            ),
            (Exchange::ConnectLater, Event::Connected { failure, elapsed }) => after_connect(
                failure,
                elapsed,
                budget,
            ),
            _ => before,
        }
    }
}

/// How often the request was sent in the course of `events`.
pub open spec fn times_sent(
    policy: Policy,
    budget: u128,
    connected: bool,
    events: Seq<Event>,
) -> nat
    decreases events.len(),
{
    if events.len() == 0 {
        0
    } else {
        let rest = events.drop_last();
        let before = stands(policy, budget, connected, rest);
        times_sent(policy, budget, connected, rest) + if before is Send
            && events.last() is Answered {
            1nat
        } else {
            0nat
        }
    }
}

/// A request that may have had its effect is sent at most once, whatever
/// happens to the connection; and once it was sent, the exchange is over.
pub proof fn sent_at_most_once(budget: u128, connected: bool, events: Seq<Event>)
    ensures
        times_sent(Policy::Once, budget, connected, events) <= 1,
        times_sent(Policy::Once, budget, connected, events) == 1 ==> stands(
            Policy::Once,
            budget,
            connected,
            events,
        ) is Done,
    decreases events.len(),
{
    if events.len() > 0 {
        sent_at_most_once(budget, connected, events.drop_last());
    }
}

/// An attempt to connect that failed with the budget used up, which is the
/// answer.
pub open spec fn gave_up(
    event: Event,
    budget: u128,
    reply: Result<JsonView, IpcErrorView>,
) -> bool {
    match event {
        Event::Connected { failure: Some(e), elapsed } => elapsed >= budget && reply == Err::<
            JsonView,
            IpcErrorView,
        >(e),
        _ => false,
    }
}

/// A request that does no harm a second time is never answered with a broken
/// connection over which it was sent: it ends with another answer of the
/// daemon, or with an error to connect once the budget is used up.
pub proof fn retried_until_answered(budget: u128, connected: bool, events: Seq<Event>)
    ensures
        stands(Policy::Retry, budget, connected, events) matches Exchange::Done(reply) ==> !broken(
            reply,
        ) || exists|i: int| 0 <= i < events.len() && gave_up(#[trigger] events[i], budget, reply),
    decreases events.len(),
{
    if events.len() > 0 {
        let rest = events.drop_last();
        retried_until_answered(budget, connected, rest);
        let before = stands(Policy::Retry, budget, connected, rest);
        if before is Done {
            assert(stands(Policy::Retry, budget, connected, events) == before);
            let reply = before->Done_0;
            if broken(reply) {
                let i = choose|i: int|
                    0 <= i < rest.len() && gave_up(#[trigger] rest[i], budget, reply);
                assert(events[i] == rest[i]);
            }
        } else {
            assert(events[events.len() - 1] == events.last());
        }
    }
}

/// Connecting is not given up before the budget is used up.
pub proof fn budget_is_not_cut_short(failure: Option<IpcErrorView>, elapsed: u128, budget: u128)
    requires
        elapsed < budget,
    ensures
        !(after_connect(failure, elapsed, budget) is Done),
{
}

/// A request is not sent again over a new connection exactly if it changes
/// something, or subscribes.
pub proof fn only_harmless_requests_are_repeated(req: Request<Seq<char>>)
    ensures
        policy_of(req) == Policy::Once <==> req is OpenWrite || req is OpenWriteBegin || req is Mkdir
            || req is Unlink || req is Rmdir || req is Create || req is Rename || req is Subscribe,
        policy_of(req) == Policy::Retry <==> req is OpenRead || req is CloseHandle || req is Hydrate
            || req is Dehydrate || req is LastSynced || req is List,
{
}

/// An exchange sends its request as soon as there is a connection. It connects
/// until it can, or until the budget is used up, which gives the last error. It
/// ends with the answer, unless the connection broke under a request that may
/// be sent again.
pub proof fn exchange_goes_on_by_what_came(
    e: IpcErrorView,
    elapsed: u128,
    budget: u128,
    policy: Policy,
    reply: Result<JsonView, IpcErrorView>,
)
    ensures
        begin(true) == ExchangeView::Send,
        begin(false) == ExchangeView::Connect,
        after_connect(None, elapsed, budget) == ExchangeView::Send,
        elapsed >= budget ==> after_connect(Some(e), elapsed, budget) == ExchangeView::Done(
            Err(e),
        ),
        elapsed < budget ==> after_connect(Some(e), elapsed, budget) == ExchangeView::ConnectLater,
        broken(reply) <==> reply is Err && reply->Err_0 is Io,
        reply is Err && reply->Err_0 is Io && policy == Policy::Retry ==> after_send(policy, reply)
            == ExchangeView::Connect,
        !(reply is Err && reply->Err_0 is Io && policy == Policy::Retry) ==> after_send(
            policy,
            reply,
        ) == ExchangeView::Done(reply),
{
}

/// Connecting is attempted every five seconds, for a minute.
pub proof fn connecting_is_attempted_for_a_minute()
    ensures
        DEFAULT_RETRY_INTERVAL_SECS == 5,
        DEFAULT_RETRY_BUDGET_SECS == 12 * DEFAULT_RETRY_INTERVAL_SECS,
{
}

}
