use unidrive_mount::cli::{default_cache_root, parse_args, usage, CliError};
use unidrive_mount::kernel_floor::{check_kernel_floor, is_white, parse_major_minor, trim, KernelFloorError};
use unidrive_mount::logging::{init_logging, is_safe_state_home_base, sink_for, state_dir, Sink};
use unidrive_mount::profile_lock::{acquire, open_error, LockFailure, ProfileLockError, EWOULDBLOCK};
use unidrive_mount::run::{
    advance, check_args, check_machine, finish, first_stage, Outcome, Places, Stage, EX_CONFIG,
    EX_GENERIC_FAILURE, EX_OK, EX_USAGE,
};

fn argv(args: &[&str]) -> Vec<String> {
    args.iter().map(|s| s.to_string()).collect()
}

#[test]
fn both_args_present_parses_ok() {
    let argv = argv(&["unidrive-mount", "--mount", "/tmp/mnt", "--ipc", "/tmp/jvm.sock"]);
    let cli = parse_args(&argv).unwrap();
    assert_eq!(cli.mount, "/tmp/mnt");
    assert_eq!(cli.ipc, "/tmp/jvm.sock");
    assert_eq!(cli.cache, None);
    assert_eq!(cli.lock, None);
}

#[test]
fn missing_mount_returns_usage_error() {
    let argv = argv(&["unidrive-mount", "--ipc", "/tmp/jvm.sock"]);
    let err = parse_args(&argv).unwrap_err();
    assert!(matches!(err, CliError::Usage(_)), "expected CliError::Usage, got {err:?}");
}

#[test]
fn missing_ipc_returns_usage_error() {
    let argv = argv(&["unidrive-mount", "--mount", "/tmp/mnt"]);
    let err = parse_args(&argv).unwrap_err();
    assert!(matches!(err, CliError::Usage(_)));
}

#[test]
fn unknown_arg_returns_usage_error() {
    let argv = argv(&["unidrive-mount", "--mount", "/tmp/mnt", "--ipc", "/tmp/jvm.sock", "--bogus"]);
    let err = parse_args(&argv).unwrap_err();
    assert!(matches!(err, CliError::Usage(_)));
}

#[test]
fn help_arg_returns_help() {
    let argv = argv(&["unidrive-mount", "--help"]);
    let err = parse_args(&argv).unwrap_err();
    assert!(matches!(err, CliError::Help(_)));
}

#[test]
fn missing_value_after_mount_returns_usage_error() {
    let argv = argv(&["unidrive-mount", "--mount"]);
    let err = parse_args(&argv).unwrap_err();
    assert!(matches!(err, CliError::Usage(_)));
}

#[test]
fn complaints_name_what_is_wrong_and_show_the_help() {
    for (args, what) in [
        (vec!["p"], "missing required --mount"),
        (vec!["p", "--mount", "m"], "missing required --ipc"),
        (vec!["p", "--mount", "m", "--ipc"], "--ipc requires a value"),
        (vec!["p", "--cache"], "--cache requires a value"),
        (vec!["p", "--lock"], "--lock requires a value"),
        (vec!["p", "x", "--help"], "unknown argument: x"),
        (vec![], "missing required --mount"),
    ] {
        match parse_args(&argv(&args)) {
            Err(CliError::Usage(m)) => assert_eq!(m, format!("{what}\n{}", usage())),
            other => panic!("{args:?}: {other:?}"),
        }
    }
}

#[test]
fn options_come_in_any_order_and_the_last_one_counts() {
    let cli = parse_args(&argv(&[
        "p", "--lock", "l", "--ipc", "i", "--cache", "c1", "--mount", "m", "--cache", "--help",
    ]))
    .unwrap();
    assert_eq!(cli.mount, "m");
    assert_eq!(cli.ipc, "i");
    assert_eq!(cli.cache, Some("--help".to_string()));
    assert_eq!(cli.lock, Some("l".to_string()));
    assert!(matches!(parse_args(&argv(&["p", "--mount", "m", "-h", "x"])), Err(CliError::Help(_))));
}

#[test]
fn the_help_text_starts_with_the_usage() {
    assert!(usage().starts_with(
        "Usage: unidrive-mount --mount <path> --ipc <socket> [--cache <path>] [--lock <path>]\n\nOptions:\n  --mount <path>   Filesystem mount point (an existing empty directory).\n"
    ));
    assert!(usage().ends_with("  --help           Show this message and exit.\n"));
}

#[test]
fn the_cache_root_has_a_default() {
    assert_eq!(default_cache_root(Some(b"/x"), Some(b"/h")), b"/x/unidrive/hydration".to_vec());
    assert_eq!(default_cache_root(Some(b"/x/"), None), b"/x/unidrive/hydration".to_vec());
    assert_eq!(default_cache_root(Some(b""), None), b"unidrive/hydration".to_vec());
    assert_eq!(default_cache_root(None, Some(b"/h")), b"/h/.cache/unidrive/hydration".to_vec());
    assert_eq!(default_cache_root(None, None), b".cache/unidrive/hydration".to_vec());
    let given = parse_args(&argv(&["p", "--mount", "m", "--ipc", "i", "--cache", "/c"])).unwrap();
    assert_eq!(given.cache_root(Some(b"/x"), None), b"/c".to_vec());
    let default = parse_args(&argv(&["p", "--mount", "m", "--ipc", "i"])).unwrap();
    assert_eq!(default.cache_root(Some(b"/x"), None), b"/x/unidrive/hydration".to_vec());
    // The same as std joins paths.
    let std_path = std::path::PathBuf::from("/x/").join("unidrive").join("hydration");
    assert_eq!(std_path.to_str(), Some("/x/unidrive/hydration"));
}

#[test]
fn check_kernel_floor_refuses_below_6_9() {
    let err = check_kernel_floor("6.8.0-generic").unwrap_err();
    assert!(matches!(err, KernelFloorError::TooOld { .. }));
    let msg = err.message();
    assert!(msg.contains("6.9"), "stderr must cite the required kernel: {msg}");
    assert!(msg.contains("FUSE_PASSTHROUGH"), "stderr must cite the missing feature: {msg}");
    assert_eq!(msg, "kernel 6.8.0-generic too old; FUSE_PASSTHROUGH requires Linux 6.9 or newer");
}

#[test]
fn check_kernel_floor_accepts_6_9() {
    check_kernel_floor("6.9.0-generic").unwrap();
}

#[test]
fn check_kernel_floor_accepts_7_0() {
    check_kernel_floor("7.0.9-070009-generic").unwrap();
}

#[test]
fn check_kernel_floor_rejects_unparseable() {
    let err = check_kernel_floor("not-a-version").unwrap_err();
    assert!(matches!(err, KernelFloorError::Unparseable { .. }));
}

#[test]
fn kernel_messages_quote_what_was_read() {
    let err = check_kernel_floor("  bad\"\n").unwrap_err();
    assert_eq!(
        err.message(),
        "could not parse kernel release \"bad\\\"\"; FUSE_PASSTHROUGH requires Linux 6.9 or newer"
    );
    assert_eq!(
        KernelFloorError::IoError("gone".to_string()).message(),
        "could not read /proc/sys/kernel/osrelease: gone"
    );
}

#[test]
fn versions_are_read_as_numbers() {
    assert_eq!(parse_major_minor("6.10.3"), Some((6, 10)));
    assert_eq!(parse_major_minor("6.10"), Some((6, 10)));
    assert_eq!(parse_major_minor("+6.010-x"), Some((6, 10)));
    assert_eq!(parse_major_minor("4294967295.0"), Some((4294967295, 0)));
    assert_eq!(parse_major_minor("4294967296.0"), None);
    assert_eq!(parse_major_minor("6"), None);
    assert_eq!(parse_major_minor("6."), None);
    assert_eq!(parse_major_minor("6-1.9"), None);
    assert_eq!(parse_major_minor(".9"), None);
    assert_eq!(parse_major_minor("6.9rc1"), None);
    assert_eq!(parse_major_minor(""), None);
    assert_eq!(parse_major_minor("+.1"), None);
    assert_eq!(parse_major_minor("++6.1"), None);
    assert!(check_kernel_floor("6.10").is_ok());
    assert!(check_kernel_floor("5.99").is_err());
}

#[test]
fn white_space_is_what_std_says() {
    for n in 0..=0x10ffffu32 {
        if let Some(c) = char::from_u32(n) {
            assert_eq!(is_white(c), c.is_whitespace(), "{n:x}");
        }
    }
    assert_eq!(trim("\u{3000} a b\t\r\n\u{a0}"), "a b");
    assert_eq!(trim(" \n"), "");
}

// The environment is handed in, so that nothing needs to be set and unset.
#[test]
fn state_dir_prefers_xdg_state_home() {
    let resolved = state_dir(Some(b"/var/tmp/xdgtest"), Some(b"/home/u"));
    assert_eq!(resolved, b"/var/tmp/xdgtest/unidrive".to_vec());
}

#[test]
fn an_unsafe_state_home_is_passed_over() {
    let fallback = b"/home/u/.local/state/unidrive".to_vec();
    for bad in ["", "relative", "/a/../b", "/..", "/a/..", "../x"] {
        assert!(!is_safe_state_home_base(bad.as_bytes()), "{bad}");
        assert_eq!(state_dir(Some(bad.as_bytes()), Some(b"/home/u")), fallback, "{bad}");
    }
    for good in ["/", "/a..b", "/..a", "/a/...", "/a/./b"] {
        assert!(is_safe_state_home_base(good.as_bytes()), "{good}");
    }
    assert_eq!(state_dir(None, Some(b"/home/u")), fallback);
    assert_eq!(state_dir(None, None), b"/tmp/.local/state/unidrive".to_vec());
}

#[test]
fn the_log_goes_to_the_journal_or_to_a_file() {
    assert_eq!(init_logging(None, true), Some(Sink::Stderr));
    assert_eq!(init_logging(None, false), Some(Sink::File));
    assert_eq!(sink_for(Sink::File, true), Sink::File);
    assert_eq!(sink_for(Sink::File, false), Sink::Stderr);
    assert_eq!(sink_for(Sink::Stderr, true), Sink::Stderr);
}

#[test]
fn init_logging_is_idempotent_and_does_not_panic() {
    for (journal, opened) in [(false, false), (false, true), (true, false), (true, true)] {
        let wanted = init_logging(None, journal).unwrap();
        let installed = Some(sink_for(wanted, opened));
        assert_eq!(init_logging(installed, journal), None);
        assert_eq!(init_logging(installed, !journal), None);
    }
}

fn lock_failure(errno: i32, text: &str) -> Option<LockFailure<String>> {
    Some(LockFailure { errno: Some(errno), text: text.to_string() })
}

#[test]
fn second_acquire_returns_held_when_already_locked() {
    assert_eq!(EWOULDBLOCK, libc::EWOULDBLOCK);
    let err = acquire("/l/.lock", lock_failure(libc::EWOULDBLOCK, "x")).unwrap_err();
    assert!(matches!(err, ProfileLockError::Held { .. }), "got {err:?}");
    let msg = err.message();
    assert!(msg.contains("refusing mount"), "message: {msg}");
    assert_eq!(msg, "Profile lock /l/.lock is held by another unidrive process; refusing mount.");
}

#[test]
fn a_lock_is_held_until_it_is_dropped() {
    // What the system answers about a lock that is held, or not.
    let flock = |held: bool| if held { lock_failure(libc::EWOULDBLOCK, "held") } else { None };
    let mut held = false;
    for drop in [false, false, false, true, false, true, false] {
        if drop {
            held = false;
        } else {
            let got = acquire("/l", flock(held));
            assert_eq!(got.is_ok(), !held);
            assert!(!held || matches!(got, Err(ProfileLockError::Held { path }) if path == "/l"));
            held = true;
        }
    }
}

#[test]
fn a_lock_is_had_or_its_failure_is_told() {
    assert!(acquire("/l", None).is_ok());
    let failed = acquire("/l", lock_failure(5, "bad")).unwrap_err();
    assert_eq!(failed.message(), "flock(/l) failed: bad");
    let odd = acquire("/l", Some(LockFailure { errno: None, text: "odd".to_string() })).unwrap_err();
    assert!(matches!(odd, ProfileLockError::Flock { .. }));
    let unopened = open_error("/l", "denied".to_string());
    assert_eq!(unopened.message(), "failed to open profile lock file /l: denied");
}

#[test]
fn usage_error_exits_with_64() {
    let exit = check_args(&argv(&["unidrive-mount"])).unwrap_err();
    assert_eq!(exit.code, EX_USAGE);
    assert_eq!(exit.code, 64);
}

#[test]
fn help_arg_exits_with_zero() {
    let exit = check_args(&argv(&["unidrive-mount", "--help"])).unwrap_err();
    assert_eq!(exit.code, EX_OK);
    assert_eq!(exit.code, 0);
    assert_eq!(exit.out, usage());
    assert_eq!(exit.err, "");
}

#[test]
fn binary_links_and_help_exits_zero() {
    assert_eq!(check_args(&argv(&["unidrive-mount", "--help"])).unwrap_err().code, 0);
}

#[test]
fn missing_args_exits_with_64() {
    let exit = check_args(&argv(&["unidrive-mount"])).unwrap_err();
    assert_eq!(exit.code, 64);
    assert_eq!(exit.out, "");
    assert!(exit.err.starts_with("missing required --mount\n"));
}

#[test]
fn the_machine_is_checked_kernel_first() {
    let old = check_machine(check_kernel_floor("6.8"), 0).unwrap();
    assert_eq!(old.code, EX_CONFIG);
    assert_eq!(old.err, "kernel 6.8 too old; FUSE_PASSTHROUGH requires Linux 6.9 or newer\n");
    let root = check_machine(Ok(()), 0).unwrap();
    assert_eq!(root.code, EX_GENERIC_FAILURE);
    assert_eq!(
        root.err,
        "refusing to run as root; unidrive-mount is per-user. Re-run as a normal user.\n"
    );
    assert!(check_machine(Ok(()), 1000).is_none());
    assert_eq!(finish(Ok(())).code, 0);
    let failed = finish(Err("boom".to_string()));
    assert_eq!((failed.code, failed.err.as_str()), (1, "boom\n"));
}

fn places(has_lock: bool) -> Places<String> {
    Places {
        mount: "/m".to_string(),
        ipc: "/s".to_string(),
        cache: "/c".to_string(),
        has_lock,
    }
}

fn error_of(stage: Stage<String>) -> String {
    match stage {
        Stage::Ended(Err(e)) => e,
        other => panic!("{other:?}"),
    }
}

#[test]
fn the_stages_come_in_order() {
    let p = places(true);
    let mut stage = first_stage();
    let mut seen: Vec<String> = vec![];
    for _ in 0..7 {
        seen.push(format!("{stage:?}"));
        stage = advance(stage, &p, Outcome::Done);
    }
    assert_eq!(
        seen,
        ["Connect", "Lock", "Scan", "Mount", "CatchTerminate", "CatchInterrupt", "Serve"]
    );
    assert!(matches!(stage, Stage::Ended(Ok(()))));
    assert!(matches!(advance(Stage::Connect, &places(false), Outcome::Done), Stage::Scan));
    assert!(matches!(advance(Stage::Serve, &p, Outcome::Signal), Stage::Unmount));
    assert!(matches!(advance(Stage::Unmount, &p, Outcome::Done), Stage::Ended(Ok(()))));
    assert!(matches!(advance(Stage::Scan, &p, Outcome::Signal), Stage::Scan));
}

#[test]
fn a_failed_stage_ends_the_run_with_its_message() {
    let p = places(true);
    let fail = |s: Stage<String>| error_of(advance(s, &p, Outcome::Failed("why".to_string())));
    assert_eq!(fail(Stage::Connect), "failed to connect IPC at /s: why");
    assert_eq!(fail(Stage::Lock), "why");
    assert_eq!(fail(Stage::Scan), "cache_scanner failed at /c: why");
    assert_eq!(fail(Stage::Mount), "failed to mount FUSE at /m: why");
    assert_eq!(fail(Stage::CatchTerminate), "failed to install SIGTERM handler: why");
    assert_eq!(fail(Stage::CatchInterrupt), "failed to install SIGINT handler: why");
    assert_eq!(fail(Stage::Serve), "fuse session ended with error: why");
    assert_eq!(fail(Stage::Unmount), "unmount failed: why");
    assert_eq!(fail(Stage::Ended(Err("first".to_string()))), "first");
}

// A lock that another process holds ends the run before anything is recovered
// or mounted.
#[test]
fn co_daemon_refuses_when_profile_lock_already_held() {
    let held = acquire("/profile/.lock", lock_failure(EWOULDBLOCK, "")).unwrap_err();
    let after_connect = advance(first_stage(), &places(true), Outcome::Done);
    assert!(matches!(after_connect, Stage::Lock));
    let e = error_of(advance(after_connect, &places(true), Outcome::Failed(held.message())));
    assert!(e.contains("refusing mount"), "message: {e}");
    let exit = finish(Err(e));
    assert_eq!(exit.code, 1);
}
