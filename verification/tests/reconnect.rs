use unidrive_mount::ipc::{bare_reply, list_reply, open_read_reply, receive, IpcError, Reply, Request};
use unidrive_mount::reconnect::{
    answered, ensure_connected, policy, start_exchange, Exchange, Policy, DEFAULT_RETRY_BUDGET_SECS,
    DEFAULT_RETRY_INTERVAL_SECS,
};

fn io(why: &str) -> IpcError {
    IpcError::Io(why.to_string())
}

fn ok(line: &str) -> Reply {
    receive(line)
}

/// Runs an exchange against a connection that comes up after `downtime`
/// nanoseconds. Each attempt to connect takes no time, and one nanosecond
/// passes between two of them. Hands back the answer and how often the request
/// was sent.
fn exchange(req: &Request<String>, connected: bool, downtime: u128, budget: u128, mut replies: Vec<Reply>) -> (Reply, usize) {
    let mut sent = 0;
    let mut elapsed: u128 = 0;
    let mut next = start_exchange(connected);
    loop {
        next = match next {
            Exchange::Done(reply) => return (reply, sent),
            Exchange::Send => {
                sent += 1;
                let (next, usable) = answered(policy(req), replies.remove(0));
                if matches!(next, Exchange::Connect) {
                    assert!(!usable);
                }
                next
            }
            Exchange::Connect => {
                elapsed = 0;
                attempt(elapsed, downtime, budget)
            }
            Exchange::ConnectLater => {
                elapsed += 1;
                attempt(elapsed, downtime, budget)
            }
        };
    }
}

fn attempt(elapsed: u128, downtime: u128, budget: u128) -> Exchange<Reply> {
    let result = if elapsed >= downtime { Ok(()) } else { Err(io("refused")) };
    ensure_connected(result, elapsed, budget)
}

fn s(x: &str) -> String {
    x.to_string()
}

#[test]
fn the_defaults_are_five_and_sixty_seconds() {
    assert_eq!(DEFAULT_RETRY_INTERVAL_SECS, 5);
    assert_eq!(DEFAULT_RETRY_BUDGET_SECS, 60);
}

#[test]
fn reconnect_succeeds_after_server_restart() {
    let req = Request::List { prefix: s("") };
    let replies = vec![Err(io("broken pipe")), ok(r#"{"ok":true,"entries":[]}"#)];
    let (reply, sent) = exchange(&req, true, 3, 100, replies);
    assert!(list_reply(&reply.unwrap()).unwrap().is_empty());
    assert_eq!(sent, 2);
}

#[test]
fn reconnect_succeeds_after_daemon_stop_and_restart_cycle() {
    let req = Request::List { prefix: s("") };
    let listed = r#"{"ok":true,"entries":[]}"#;
    let (first, _) = exchange(&req, true, 0, 100, vec![ok(listed)]);
    first.expect("first list");
    // The daemon is stopped while the request is on its way, and comes back
    // well within the budget.
    let (reply, sent) = exchange(&req, true, 50, 100, vec![Err(io("eof")), ok(listed)]);
    assert!(list_reply(&reply.unwrap()).unwrap().is_empty());
    assert_eq!(sent, 2);
}

#[test]
fn a_used_up_budget_gives_the_error_of_connecting() {
    let req = Request::List { prefix: s("") };
    let (reply, sent) = exchange(&req, true, 1000, 10, vec![Err(io("gone"))]);
    assert!(matches!(reply, Err(IpcError::Io(why)) if why == "refused"));
    assert_eq!(sent, 1);
}

#[test]
fn the_budget_is_not_cut_short() {
    assert!(matches!(ensure_connected(Err(io("x")), 9, 10), Exchange::ConnectLater));
    assert!(matches!(ensure_connected(Err(io("x")), 10, 10), Exchange::Done(Err(IpcError::Io(_)))));
    assert!(matches!(ensure_connected(Ok(()), 99, 10), Exchange::Send));
    assert!(matches!(ensure_connected(Err(io("x")), 0, 0), Exchange::Done(_)));
}

fn is_not_replayed(req: Request<String>) {
    assert_eq!(policy(&req), Policy::Once);
    // The connection breaks after the request was sent. A second answer would
    // be a success, and must not be asked for.
    let replies = vec![Err(io("unexpected end of file")), ok(r#"{"ok":true}"#)];
    let (reply, sent) = exchange(&req, true, 0, 100, replies);
    assert!(matches!(reply, Err(IpcError::Io(why)) if why == "unexpected end of file"));
    assert_eq!(sent, 1);
    // The connection is not used again.
    assert!(!answered(policy(&req), Err(io("x"))).1);
    // Before it was sent, connecting is attempted again.
    let (reply, sent) = exchange(&req, false, 5, 100, vec![ok(r#"{"ok":true}"#)]);
    assert!(bare_reply(&reply.unwrap()).is_ok());
    assert_eq!(sent, 1);
}

#[test]
fn mutating_verb_is_not_replayed_after_io_post_send() {
    is_not_replayed(Request::Rename { old_path: s("/a/old.txt"), new_path: s("/a/new.txt") });
}

#[test]
fn mutating_verb_unlink_is_not_replayed_after_io_post_send() {
    is_not_replayed(Request::Unlink { path: s("/a/file.txt") });
}

#[test]
fn mutating_verb_mkdir_is_not_replayed_after_io_post_send() {
    is_not_replayed(Request::Mkdir { path: s("/newdir") });
}

#[test]
fn mutating_verb_rmdir_is_not_replayed_after_io_post_send() {
    is_not_replayed(Request::Rmdir { path: s("/olddir") });
}

#[test]
fn mutating_verb_create_is_not_replayed_after_io_post_send() {
    is_not_replayed(Request::Create { handle_id: s("h1"), path: s("/new/file.txt") });
}

#[test]
fn mutating_verb_open_write_is_not_replayed_after_io_post_send() {
    is_not_replayed(Request::OpenWrite {
        handle_id: s("h1"),
        path: s("/a/file.txt"),
        cache_path: s("/tmp/cache/file.txt"),
    });
}

#[test]
fn mutating_verb_open_write_begin_is_not_replayed_after_io_post_send() {
    is_not_replayed(Request::OpenWriteBegin { path: s("/a/file.txt"), handle_id: None });
}

#[test]
fn idempotent_read_is_retried_across_reconnect() {
    let req = Request::List { prefix: s("") };
    let listed = r#"{"ok":true,"entries":[]}"#;
    let (reply, _) = exchange(&req, true, 0, 100, vec![ok(listed)]);
    assert!(list_reply(&reply.unwrap()).unwrap().is_empty());
    let (reply, sent) = exchange(&req, true, 3, 100, vec![Err(io("reset")), ok(listed)]);
    assert!(list_reply(&reply.unwrap()).unwrap().is_empty());
    assert_eq!(sent, 2);
}

#[test]
fn every_idempotent_verb_is_retried() {
    for req in [
        Request::LastSynced { path: s("/a") },
        Request::Hydrate { path: s("/a") },
        Request::Dehydrate { path: s("/a") },
        Request::CloseHandle { handle_id: s("h") },
        Request::List { prefix: s("/") },
    ] {
        assert_eq!(policy(&req), Policy::Retry);
        let replies = vec![Err(io("1")), Err(io("2")), ok(r#"{"ok":true}"#)];
        let (reply, sent) = exchange(&req, true, 2, 100, replies);
        assert!(reply.is_ok());
        assert_eq!(sent, 3);
    }
}

#[test]
fn idempotent_open_read_is_retried_across_reconnect() {
    let req = Request::OpenRead { handle_id: s("h1"), path: s("/foo.txt") };
    let replies =
        vec![Err(io("reset")), ok(r#"{"ok":true,"cache_path":"/tmp/test-cache/foo.txt"}"#)];
    let (reply, sent) = exchange(&req, true, 1, 100, replies);
    assert_eq!(open_read_reply(&reply.unwrap()).unwrap().cache_path, "/tmp/test-cache/foo.txt");
    assert_eq!(sent, 2);
}

#[test]
fn other_errors_are_answers() {
    for err in [IpcError::Busy, IpcError::Malformed(s("m")), IpcError::ServerError(s("e"))] {
        let message = err.message();
        let (next, usable) = answered(Policy::Retry, Err(err));
        assert!(usable);
        match next {
            Exchange::Done(Err(e)) => assert_eq!(e.message(), message),
            other => panic!("{other:?}"),
        }
    }
    assert_eq!(IpcError::Io(s("x")).message(), "io: x");
    assert_eq!(policy(&Request::Subscribe), Policy::Once);
}
