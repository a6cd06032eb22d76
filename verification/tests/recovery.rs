use std::path::Path;
use unidrive_mount::cache_scanner::{mtime_ms, EntryKind, FileTime, Scan, ScanStep, ScannerError, Walk};
use unidrive_mount::ipc::{receive, request_line, Reply, Request};
use unidrive_mount::unix_path::{is_below, join_path, strip_root};

/// Answers each verb with one canned reply.
struct Daemon<'a> {
    replies: &'a [(&'a str, &'a str)],
    recorded: Vec<String>,
}

impl Daemon<'_> {
    fn ask(&mut self, req: &Request<String>) -> Reply {
        let line = request_line(req)?;
        let none = r#"{"ok":false,"error":"no_canned_reply"}"#;
        let mut reply = none;
        for (verb, canned) in self.replies {
            if line.contains(&format!("\"verb\":\"hydration.{verb}\"")) {
                reply = canned;
            }
        }
        self.recorded.push(line);
        receive(&format!("{reply}\n"))
    }

    fn writes(&self) -> Vec<&String> {
        self.recorded.iter().filter(|r| r.contains(r#""verb":"hydration.open_write""#)).collect()
    }
}

const ROOT: &[u8] = b"/cache";

/// Recovers files of the given names, changed at the given times.
fn recover(files: &[(&str, Option<i64>)], daemon: &mut Daemon) -> usize {
    let mut walk = Walk::new(ROOT.to_vec());
    assert_eq!(walk.next_directory(), Some(ROOT.to_vec()));
    for (name, _) in files {
        walk.visit(EntryKind::File, Some(join_path(ROOT, name.as_bytes())));
    }
    assert_eq!(walk.next_directory(), None);
    let mut step = Scan::scan_and_replay(walk.collect_files());
    let mut turn = 0;
    loop {
        step = match step {
            ScanStep::Stat(scan) => {
                assert_eq!(scan.cache_path(), &join_path(ROOT, files[turn].0.as_bytes()));
                turn += 1;
                scan.stated(files[turn - 1].1)
            }
            ScanStep::Ask(scan, changed) => {
                let reply = daemon.ask(&scan.sync_request());
                scan.synced(changed, reply)
            }
            ScanStep::Tell(scan) => {
                let reply = daemon.ask(&scan.replay_request());
                scan.told(reply)
            }
            ScanStep::Done(n) => return n,
        };
    }
}

#[test]
fn empty_cache_returns_zero() {
    let mut d = Daemon { replies: &[], recorded: vec![] };
    assert_eq!(recover(&[], &mut d), 0);
    assert!(d.recorded.is_empty());
}

#[test]
fn newer_than_watermark_triggers_replay() {
    let mut d = Daemon {
        replies: &[
            ("last_synced", r#"{"ok":true,"mtime_ms":1}"#),
            ("open_write", r#"{"ok":true,"cache_path":"/cache/foo.txt"}"#),
        ],
        recorded: vec![],
    };
    assert_eq!(recover(&[("foo.txt", Some(1_700_000_000_000))], &mut d), 1);
    let writes = d.writes();
    assert_eq!(writes.len(), 1, "expected exactly one open_write call");
    assert!(writes[0].contains(r#""path":"/foo.txt""#), "open_write must use remote path: {}", writes[0]);
    assert!(writes[0].contains(r#""handle_id":"recovery-1""#), "{}", writes[0]);
    assert!(writes[0].contains(r#""cache_path":"/cache/foo.txt""#), "{}", writes[0]);
}

#[test]
fn older_than_watermark_no_replay() {
    let mut d = Daemon {
        replies: &[
            ("last_synced", r#"{"ok":true,"mtime_ms":1700000060000}"#),
            ("open_write", r#"{"ok":true,"cache_path":"/should/not/be/used"}"#),
        ],
        recorded: vec![],
    };
    assert_eq!(recover(&[("foo.txt", Some(1_699_996_400_000))], &mut d), 0);
    assert!(d.writes().is_empty(), "no open_write should be issued");
}

#[test]
fn unknown_path_skips_silently() {
    let mut d = Daemon {
        replies: &[
            ("last_synced", r#"{"ok":false,"error":"unknown_path"}"#),
            ("open_write", r#"{"ok":true,"cache_path":"/x"}"#),
        ],
        recorded: vec![],
    };
    assert_eq!(recover(&[("orphan.txt", Some(5))], &mut d), 0);
    assert!(d.writes().is_empty(), "an unknown path must suppress replay");
}

#[test]
fn multiple_files_count_and_replay() {
    let mut d = Daemon {
        replies: &[
            ("last_synced", r#"{"ok":true,"mtime_ms":1}"#),
            ("open_write", r#"{"ok":true,"cache_path":"/x"}"#),
        ],
        recorded: vec![],
    };
    let files = [("a/b/foo.txt", Some(9)), ("bar.txt", Some(8)), ("old.txt", Some(7))];
    assert_eq!(recover(&files, &mut d), 3, "all three files should replay against watermark=1");
    let writes = d.writes();
    assert_eq!(writes.len(), 3);
    assert!(writes[0].contains(r#""path":"/a/b/foo.txt""#));
    assert!(writes[1].contains(r#""handle_id":"recovery-2""#));
    assert!(writes[2].contains(r#""handle_id":"recovery-3""#));
}

#[test]
fn a_tie_is_replayed_and_only_what_was_taken_counts() {
    let mut d = Daemon {
        replies: &[
            ("last_synced", r#"{"ok":true,"mtime_ms":10}"#),
            ("open_write", r#"{"ok":false,"error":"no"}"#),
        ],
        recorded: vec![],
    };
    let files = [("old", Some(9)), ("tie", Some(10)), ("gone", None), ("new", Some(11))];
    assert_eq!(recover(&files, &mut d), 0);
    let writes = d.writes();
    assert_eq!(writes.len(), 2);
    assert!(writes[0].contains(r#""path":"/tie""#) && writes[0].contains("recovery-1"));
    assert!(writes[1].contains(r#""path":"/new""#) && writes[1].contains("recovery-2"));
    assert_eq!(d.recorded.iter().filter(|r| r.contains("last_synced")).count(), 3);
}

#[test]
fn a_walk_stays_below_its_root() {
    let mut walk = Walk::new(b"/cache".to_vec());
    assert_eq!(walk.next_directory(), Some(b"/cache".to_vec()));
    walk.visit(EntryKind::Folder, Some(b"/cache/a".to_vec()));
    walk.visit(EntryKind::Folder, Some(b"/cache/b".to_vec()));
    walk.visit(EntryKind::Folder, Some(b"/elsewhere".to_vec()));
    walk.visit(EntryKind::Folder, Some(b"/cached".to_vec()));
    walk.visit(EntryKind::Folder, None);
    walk.visit(EntryKind::Symlink, Some(b"/cache/link".to_vec()));
    walk.visit(EntryKind::Other, Some(b"/cache/pipe".to_vec()));
    walk.visit(EntryKind::File, Some(b"/etc/passwd".to_vec()));
    walk.visit(EntryKind::File, Some(b"/cache/x\\y".to_vec()));
    walk.visit(EntryKind::File, Some(b"/cache/bad\xff".to_vec()));
    walk.visit(EntryKind::File, Some("/cache/\u{e4}".as_bytes().to_vec()));
    assert_eq!(walk.next_directory(), Some(b"/cache/b".to_vec()));
    assert_eq!(walk.next_directory(), Some(b"/cache/a".to_vec()));
    assert_eq!(walk.next_directory(), None);
    assert!(Walk::wants_canonical(EntryKind::File) && Walk::wants_canonical(EntryKind::Folder));
    assert!(!Walk::wants_canonical(EntryKind::Symlink) && !Walk::wants_canonical(EntryKind::Other));
    let found = walk.collect_files();
    let remotes: Vec<&str> = found.iter().map(|f| f.1.as_str()).collect();
    assert_eq!(remotes, ["/x/y", "/bad\u{fffd}", "/\u{e4}"]);
    assert_eq!(found[1].0, b"/cache/bad\xff".to_vec());
}

#[test]
fn a_walk_finds_every_file_of_a_tree_once() {
    let (file, folder) = (EntryKind::File, EntryKind::Folder);
    let (link, other) = (EntryKind::Symlink, EntryKind::Other);
    // The directories of a disk, each with what is read in it.
    let disk: &[(&str, &[(EntryKind, &str)])] = &[
        ("/c", &[(file, "x"), (folder, "a"), (link, "l"), (folder, "b"), (file, "y")]),
        ("/c/a", &[(folder, "a"), (file, "x")]),
        ("/c/a/a", &[(file, "x"), (other, "pipe")]),
        ("/c/b", &[]),
        ("/c/l", &[(file, "behind_a_link")]),
    ];
    let mut walk = Walk::new(b"/c".to_vec());
    let mut read = 0;
    while let Some(dir) = walk.next_directory() {
        read += 1;
        let entries = disk.iter().find(|d| d.0.as_bytes() == dir).unwrap().1;
        for (kind, name) in entries {
            let canonical = if Walk::wants_canonical(*kind) {
                Some(join_path(&dir, name.as_bytes()))
            } else {
                None
            };
            walk.visit(*kind, canonical);
        }
    }
    assert_eq!(read, 4);
    let found = walk.collect_files();
    let remotes: Vec<&str> = found.iter().map(|f| f.1.as_str()).collect();
    assert_eq!(remotes, ["/x", "/y", "/a/x", "/a/a/x"]);
    assert_eq!(found[3].0, b"/c/a/a/x".to_vec());
}

#[test]
fn below_and_relative_agree_with_std() {
    for (root, path) in [
        ("/cache", "/cache/a/b"),
        ("/cache", "/cache"),
        ("/cache", "/cached"),
        ("/cache", "/cac"),
        ("/", "/a/b"),
        ("/", "/"),
        ("/a/b", "/a/c"),
    ] {
        let expected = Path::new(path).starts_with(root);
        assert_eq!(is_below(root.as_bytes(), path.as_bytes()), expected, "{root} {path}");
        if expected {
            let rel = Path::new(path).strip_prefix(root).unwrap().to_str().unwrap();
            assert_eq!(strip_root(root.as_bytes(), path.as_bytes()), rel.as_bytes(), "{root} {path}");
        }
        let joined = Path::new(root).join("x/y");
        assert_eq!(join_path(root.as_bytes(), b"x/y"), joined.to_str().unwrap().as_bytes());
    }
}

#[test]
fn times_of_links_and_strangers_are_not_taken() {
    let time = |is_symlink, since_epoch| Some(FileTime { is_symlink, since_epoch });
    assert_eq!(mtime_ms(b"/c/f", b"/c", time(false, Some(7))), Some(7));
    assert_eq!(mtime_ms(b"/c/f", b"/c", time(true, Some(7))), None);
    assert_eq!(mtime_ms(b"/c/f", b"/c", time(false, None)), None);
    assert_eq!(mtime_ms(b"/d/f", b"/c", time(false, Some(7))), None);
    assert_eq!(mtime_ms(b"/c/f", b"/c", None), None);
    assert_eq!(ScannerError::Walk("x".to_string()).message(), "walk error: x");
}
