use unidrive_mount::ipc::{
    bare_reply, create_reply, last_synced_reply, list_reply, open_read_reply, open_write_begin_reply,
    open_write_reply, parse_list_entry, receive, receive_event, request_line, server_error, IpcError,
    Request, MAX_REQUEST_BYTES,
};
use unidrive_mount::json::{parse, render, Json};

fn object(fields: Vec<(&str, Json)>) -> Json {
    Json::Object(fields.into_iter().map(|(k, v)| (k.to_string(), v)).collect())
}

fn text(s: &str) -> Json {
    Json::Str(s.to_string())
}

fn reply(line: &str) -> Json {
    receive(&format!("{line}\n")).unwrap()
}

fn line(req: Request<String>) -> String {
    request_line(&req).unwrap()
}

// A negative `size` (a stale or overflowed folder size) clamps to 0 and is
// parsed successfully.
#[test]
fn parse_list_entry_clamps_negative_size_instead_of_failing() {
    let e = object(vec![
        ("path", text("/gernot")),
        ("size", Json::Signed(-650676500i64)),
        ("mtime_ms", Json::Signed(1779866556384i64)),
        ("hydrated", Json::Bool(false)),
        ("folder", Json::Bool(true)),
    ]);
    let entry = parse_list_entry(&e).expect("negative size must not reject the entry");
    assert_eq!(entry.path, "/gernot");
    assert_eq!(entry.size, 0, "negative size must clamp to 0");
    assert!(entry.folder);
}

// A multi-GB size that exceeds i32 but is a valid positive u64 is preserved
// exactly.
#[test]
fn parse_list_entry_preserves_large_positive_size() {
    let e = object(vec![
        ("path", text("/big.bin")),
        ("size", Json::Unsigned(3_644_290_796u64)),
        ("mtime_ms", Json::Signed(1i64)),
        ("hydrated", Json::Bool(true)),
        ("folder", Json::Bool(false)),
    ]);
    let entry = parse_list_entry(&e).expect("large size must parse");
    assert_eq!(entry.size, 3_644_290_796);
}

// A missing or non-numeric size defaults to 0 rather than rejecting.
#[test]
fn parse_list_entry_defaults_absent_size_to_zero() {
    let e = object(vec![
        ("path", text("/x")),
        ("mtime_ms", Json::Signed(1i64)),
        ("hydrated", Json::Bool(false)),
        ("folder", Json::Bool(false)),
    ]);
    let entry = parse_list_entry(&e).expect("absent size must default, not fail");
    assert_eq!(entry.size, 0);
}

#[test]
fn sizes_from_text_are_read_or_zero() {
    for (size, expected) in [
        ("18446744073709551615", u64::MAX),
        ("9223372036854775808", 9223372036854775808),
        ("-1", 0),
        ("1.5", 0),
        ("1e30", 0),
        ("\"7\"", 0),
        ("null", 0),
        ("7", 7),
    ] {
        let e = parse(&format!(
            r#"{{"path":"/x","size":{size},"mtime_ms":1,"hydrated":false,"folder":false}}"#
        ))
        .unwrap();
        assert_eq!(parse_list_entry(&e).unwrap().size, expected, "{size}");
    }
}

#[test]
fn an_entry_that_lacks_something_is_malformed() {
    let whole = r#"{"folder":false,"hydrated":false,"mtime_ms":1,"path":"/x"}"#;
    assert!(parse_list_entry(&parse(whole).unwrap()).is_ok());
    for lacking in [
        r#"{"folder":false,"hydrated":false,"mtime_ms":1}"#,
        r#"{"folder":false,"hydrated":false,"path":"/x"}"#,
        r#"{"folder":false,"mtime_ms":1,"path":"/x"}"#,
        r#"{"hydrated":false,"mtime_ms":1,"path":"/x"}"#,
        r#"{"folder":false,"hydrated":false,"mtime_ms":18446744073709551615,"path":"/x"}"#,
        r#"[1,2]"#,
    ] {
        match parse_list_entry(&parse(lacking).unwrap()) {
            Err(IpcError::Malformed(m)) => assert_eq!(m, lacking),
            other => panic!("{other:?}"),
        }
    }
}

#[test]
fn open_read_round_trips() {
    let sent = line(Request::OpenRead {
        handle_id: "handle-1".to_string(),
        path: "/foo.txt".to_string(),
    });
    assert!(sent.contains(r#""verb":"hydration.open_read""#));
    assert!(sent.contains(r#""handle_id":"handle-1""#));
    assert!(sent.contains(r#""path":"/foo.txt""#));
    let r = open_read_reply(&reply(r#"{"ok":true,"cache_path":"/tmp/cache/foo.txt"}"#)).unwrap();
    assert_eq!(r.cache_path, "/tmp/cache/foo.txt");
}

#[test]
fn open_write_round_trips_with_three_fields() {
    let sent = line(Request::OpenWrite {
        handle_id: "handle-2".to_string(),
        path: "/foo.txt".to_string(),
        cache_path: "/tmp/cache/foo.txt".to_string(),
    });
    assert!(sent.contains(r#""verb":"hydration.open_write""#));
    assert!(sent.contains(r#""handle_id":"handle-2""#));
    assert!(sent.contains(r#""path":"/foo.txt""#));
    assert!(sent.contains(r#""cache_path":"/tmp/cache/foo.txt""#));
    let r = open_write_reply(&reply(r#"{"ok":true,"cache_path":"/tmp/cache/foo.txt"}"#)).unwrap();
    assert_eq!(r.cache_path, "/tmp/cache/foo.txt");
}

#[test]
fn close_handle_round_trips() {
    let sent = line(Request::CloseHandle { handle_id: "handle-3".to_string() });
    assert!(sent.contains(r#""verb":"hydration.close_handle""#));
    assert!(sent.contains(r#""handle_id":"handle-3""#));
    bare_reply(&reply(r#"{"ok":true}"#)).unwrap();
}

#[test]
fn hydrate_round_trips() {
    let sent = line(Request::Hydrate { path: "/bar.txt".to_string() });
    assert!(sent.contains(r#""verb":"hydration.hydrate""#));
    assert!(sent.contains(r#""path":"/bar.txt""#));
    bare_reply(&reply(r#"{"ok":true}"#)).unwrap();
}

#[test]
fn dehydrate_round_trips_ok() {
    let sent = line(Request::Dehydrate { path: "/baz.txt".to_string() });
    assert!(sent.contains(r#""verb":"hydration.dehydrate""#));
    assert!(sent.contains(r#""path":"/baz.txt""#));
    bare_reply(&reply(r#"{"ok":true}"#)).unwrap();
}

#[test]
fn dehydrate_busy_surfaces_distinct_variant() {
    let err = bare_reply(&reply(r#"{"ok":false,"error":"busy"}"#)).unwrap_err();
    assert!(matches!(err, IpcError::Busy), "expected IpcError::Busy, got {err:?}");
    assert_eq!(err.message(), "busy");
}

#[test]
fn subscribe_handshake_round_trips() {
    let sent = line(Request::Subscribe);
    assert_eq!(sent, r#"{"verb":"hydration.subscribe"}"#);
    bare_reply(&reply(r#"{"ok":true}"#)).unwrap();
}

#[test]
fn last_synced_ok_returns_mtime() {
    let sent = line(Request::LastSynced { path: "/known.txt".to_string() });
    assert!(sent.contains(r#""verb":"hydration.last_synced""#));
    assert!(sent.contains(r#""path":"/known.txt""#));
    let mtime = last_synced_reply(&reply(r#"{"ok":true,"mtime_ms":1234567890123}"#)).unwrap();
    assert_eq!(mtime, 1234567890123);
}

#[test]
fn last_synced_unknown_surfaces_dynamic_reason() {
    let err = last_synced_reply(&reply(r#"{"ok":false,"error":"unknown_path"}"#)).unwrap_err();
    match &err {
        IpcError::Unknown { reason } => assert!(!reason.is_empty(), "reason must be non-empty"),
        other => panic!("expected IpcError::Unknown, got {other:?}"),
    }
    assert_eq!(err.message(), "unknown: unknown_path");
}

#[test]
fn list_deserialises_entries() {
    let sent = line(Request::List { prefix: "/".to_string() });
    assert!(sent.contains(r#""verb":"hydration.list""#));
    assert!(sent.contains(r#""prefix":"/""#));
    let entries = list_reply(&reply(
        r#"{"ok":true,"entries":[{"path":"/a","size":10,"mtime_ms":1000,"hydrated":true,"folder":false},{"path":"/b","size":0,"mtime_ms":2000,"hydrated":false,"folder":true}]}"#,
    ))
    .unwrap();
    assert_eq!(entries.len(), 2);
    assert_eq!(entries[0].path, "/a");
    assert_eq!(entries[0].size, 10);
    assert_eq!(entries[0].mtime_ms, 1000);
    assert!(entries[0].hydrated);
    assert!(!entries[0].folder);
    assert_eq!(entries[1].path, "/b");
    assert!(!entries[1].hydrated);
    assert!(entries[1].folder);
}

#[test]
fn open_write_begin_ok_returns_cache_path() {
    let sent = line(Request::OpenWriteBegin { path: "/x.txt".to_string(), handle_id: None });
    assert!(sent.contains(r#""verb":"hydration.open_write_begin""#));
    assert!(sent.contains(r#""path":"/x.txt""#));
    assert!(!sent.contains(r#""handle_id""#));
    let r = open_write_begin_reply(&reply(r#"{"ok":true,"cache_path":"/cache/x.txt"}"#)).unwrap();
    assert_eq!(r.cache_path, "/cache/x.txt");
}

#[test]
fn open_write_begin_with_handle_id_includes_it_in_request() {
    let sent = line(Request::OpenWriteBegin {
        path: "/x.txt".to_string(),
        handle_id: Some("wh-7".to_string()),
    });
    assert!(sent.contains(r#""handle_id":"wh-7""#),
        "handle_id must be present in request when provided: {sent}");
}

#[test]
fn open_write_begin_error_surfaces_server_error() {
    let err = open_write_begin_reply(&reply(r#"{"ok":false,"error":"unknown_path"}"#)).unwrap_err();
    assert!(
        matches!(err, IpcError::ServerError(ref s) if s == "unknown_path"),
        "expected IpcError::ServerError(\"unknown_path\"), got {err:?}"
    );
    assert_eq!(err.message(), "server reported error: unknown_path");
}

#[test]
fn create_replies_carry_a_path_and_an_id() {
    let r = create_reply(&reply(r#"{"ok":true,"cache_path":"/c","handle_id":"h"}"#)).unwrap();
    assert_eq!(r.cache_path, "/c");
    assert_eq!(r.handle_id, "h");
    let lacking = r#"{"cache_path":"/c","ok":true}"#;
    match create_reply(&reply(lacking)) {
        Err(IpcError::Malformed(m)) => assert_eq!(m, lacking),
        other => panic!("{other:?}"),
    }
}

#[test]
fn requests_are_written_with_sorted_keys_on_one_line() {
    assert_eq!(
        line(Request::OpenWrite {
            handle_id: "h".to_string(),
            path: "/a\nb\"\\\u{1f600}".to_string(),
            cache_path: "/c".to_string(),
        }),
        "{\"cache_path\":\"/c\",\"handle_id\":\"h\",\"path\":\"/a\\nb\\\"\\\\\u{1f600}\",\"verb\":\"hydration.open_write\"}"
    );
    assert_eq!(
        line(Request::Rename { old_path: "/a".to_string(), new_path: "/b".to_string() }),
        r#"{"new_path":"/b","old_path":"/a","verb":"hydration.rename"}"#
    );
    for (req, verb) in [
        (Request::Mkdir { path: "/p".to_string() }, "mkdir"),
        (Request::Unlink { path: "/p".to_string() }, "unlink"),
        (Request::Rmdir { path: "/p".to_string() }, "rmdir"),
    ] {
        assert_eq!(line(req), format!(r#"{{"path":"/p","verb":"hydration.{verb}"}}"#));
    }
    assert_eq!(
        line(Request::Create { handle_id: "h".to_string(), path: "/p".to_string() }),
        r#"{"handle_id":"h","path":"/p","verb":"hydration.create"}"#
    );
}

#[test]
fn a_request_reads_back_to_its_fields() {
    let sent = line(Request::OpenRead {
        handle_id: "rh-1".to_string(),
        path: "/tab\tquote\" nul\u{0} \u{2028}".to_string(),
    });
    let back = parse(&sent).unwrap();
    assert_eq!(back.str_field("verb").unwrap(), "hydration.open_read");
    assert_eq!(back.str_field("handle_id").unwrap(), "rh-1");
    assert_eq!(back.str_field("path").unwrap(), "/tab\tquote\" nul\u{0} \u{2028}");
}

#[test]
fn a_request_over_the_cap_is_refused() {
    let frame = line(Request::Hydrate { path: String::new() }).len();
    let fits = Request::Hydrate { path: "x".repeat(MAX_REQUEST_BYTES - 1 - frame) };
    assert_eq!(request_line(&fits).unwrap().len(), 65535);
    let over = Request::Hydrate { path: "x".repeat(MAX_REQUEST_BYTES - frame) };
    match request_line(&over) {
        Err(IpcError::Malformed(m)) => {
            assert_eq!(m, "request 65536 bytes exceeds 64 KiB JVM cap")
        }
        other => panic!("{other:?}"),
    }
    // The cap counts bytes, not characters.
    let wide = Request::Hydrate { path: "\u{e4}".repeat(40000) };
    assert!(request_line(&wide).is_err());
}

#[test]
fn an_ended_connection_and_bad_json_are_told_apart() {
    match receive("") {
        Err(IpcError::Io(m)) => {
            let std_text = std::io::Error::from(std::io::ErrorKind::UnexpectedEof).to_string();
            assert_eq!(m, std_text)
        }
        other => panic!("{other:?}"),
    }
    match receive("{oops}\n") {
        Err(IpcError::Malformed(m)) => {
            assert_eq!(m, "key must be a string at line 1 column 2: {oops}")
        }
        other => panic!("{other:?}"),
    }
    assert!(receive("{}\n\n").is_ok());
    assert_eq!(receive_event("{\"a\":1}\n").unwrap(), "{\"a\":1}");
    assert!(matches!(receive_event(""), Err(IpcError::Io(_))));
}

#[test]
fn refusals_name_their_reason_or_unknown() {
    assert!(matches!(server_error(&reply(r#"{"error":"x"}"#)), IpcError::ServerError(s) if s == "x"));
    assert!(matches!(server_error(&reply("{}")), IpcError::ServerError(s) if s == "unknown"));
    assert!(matches!(server_error(&reply(r#"{"error":3}"#)), IpcError::ServerError(s) if s == "unknown"));
    // A reply that does not say `true` is a refusal.
    for r in [r#"{"ok":1}"#, r#"{"ok":"true"}"#, "{}", "[]", "null"] {
        assert!(bare_reply(&reply(r)).is_err(), "{r}");
    }
}

#[test]
fn success_without_its_field_is_malformed() {
    for lacking in [r#"{"ok":true}"#, r#"{"cache_path":7,"ok":true}"#] {
        match open_read_reply(&reply(lacking)) {
            Err(IpcError::Malformed(m)) => assert_eq!(m, lacking),
            other => panic!("{other:?}"),
        }
    }
    match last_synced_reply(&reply(r#"{"mtime_ms":1.5,"ok":true}"#)) {
        Err(e @ IpcError::Malformed(_)) => {
            assert_eq!(e.message(), r#"malformed reply: {"mtime_ms":1.5,"ok":true}"#)
        }
        other => panic!("{other:?}"),
    }
    assert!(matches!(list_reply(&reply(r#"{"ok":true,"entries":{}}"#)), Err(IpcError::Malformed(_))));
}

#[test]
fn one_bad_entry_fails_a_listing_and_a_bad_size_does_not() {
    let bad = r#"{"ok":true,"entries":[{"path":"/a","size":1,"mtime_ms":1,"hydrated":true,"folder":false},{"path":"/b"}]}"#;
    match list_reply(&reply(bad)) {
        Err(IpcError::Malformed(m)) => assert_eq!(m, r#"{"path":"/b"}"#),
        other => panic!("{other:?}"),
    }
    let odd = r#"{"ok":true,"entries":[{"path":"/a","size":-5,"mtime_ms":1,"hydrated":true,"folder":false}]}"#;
    assert_eq!(list_reply(&reply(odd)).unwrap()[0].size, 0);
}

#[test]
fn the_last_of_two_equal_keys_counts() {
    let parsed = parse(r#"{"a":1,"a":2}"#).unwrap();
    assert_eq!(parsed.u64_field("a"), Some(2));
    let built = object(vec![("a", Json::Unsigned(1)), ("a", Json::Unsigned(2))]);
    assert_eq!(built.i64_field("a"), Some(2));
    assert_eq!(render(&built), r#"{"a":2}"#);
}

#[test]
fn values_of_every_kind_are_read_and_written() {
    let s = r#"{"a":[null,true,-3,18446744073709551615,2.5,"x"],"b":{"c":[]}}"#;
    let v = parse(s).unwrap();
    assert_eq!(render(&v), s);
    match v.array_field("a") {
        Some(items) => assert_eq!(items.len(), 6),
        None => panic!("no list"),
    }
    assert_eq!(render(&Json::Signed(-3)), "-3");
    assert_eq!(render(&Json::Array(vec![Json::Null, Json::Signed(4), Json::Unsigned(4)])), "[null,4,4]");
    assert_eq!(parse("").unwrap_err(), "EOF while parsing a value at line 1 column 0");
}
