use cube_envd::auth::{layer, unauthorized};
use cube_envd::connect::{
    decode_frame, encode_end_stream, encode_stream_message, ConnectError, FrameError, END_STREAM,
};
use cube_envd::credentials::{read_credentials, CredentialsOf};
use cube_envd::defaults::{Defaults, EnvVars};
use cube_envd::entry::{entry_from_meta, permission_string, FileEntry, FileEntryOf};
use cube_envd::files::{format_http_date, parse_http_date, parse_range, second_after_epoch};
use cube_envd::host::{ErrorKind, FsErrorOf, MetadataOf, ModifiedOf};
use cube_envd::init::{envs, init, InitRequest};
use cube_envd::listing::sort_by_name;
use cube_envd::path::{file_name_of, lexical_normalize, parent_path, parent_path_or_root};
use cube_envd::process::error_response;
use cube_envd::reply::{fs_error_response, request_error_response, write_error_object};
use cube_envd::text::{comes_before, decimal, parse_unsigned, show, signed_decimal};
use std::path::Path;

fn vars(pairs: &[(&str, &str)]) -> EnvVars {
    let mut vars = EnvVars::new();
    for (name, value) in pairs {
        vars.insert((*name).to_owned(), (*value).to_owned());
    }
    vars
}

#[test]
fn unauthorized_is_401_json() {
    let reply = unauthorized();
    assert_eq!(reply.status, 401);
    assert_eq!(reply.content_type, "application/json");
    let body: serde_json::Value = serde_json::from_slice(&reply.body).unwrap();
    assert_eq!(body["code"], "unauthenticated");
    assert_eq!(body["message"], "missing or invalid access token");
    assert_eq!(reply.body, br#"{"code":"unauthenticated","message":"missing or invalid access token"}"#);
}

#[test]
fn token_guards_all_but_probing_and_bootstrap() {
    assert!(layer("/files", None, None).is_none());
    assert!(layer("/files", Some(b"token"), Some("token")).is_none());
    assert_eq!(layer("/files", None, Some("token")).unwrap().status, 401);
    assert_eq!(layer("/files", Some(b"other"), Some("token")).unwrap().status, 401);
    assert_eq!(layer("/files", Some(b"\xff"), Some("\u{ff}")).unwrap().status, 401);
    assert!(layer("/health", None, Some("token")).is_none());
    assert!(layer("/init", None, Some("token")).is_none());
}

#[test]
fn request_env_vars_override_defaults() {
    let defaults = Defaults {
        env_vars: vars(&[("FOO", "default"), ("KEEP", "default")]),
        ..Defaults::default()
    };
    let merged = defaults.merged_env_vars(&vars(&[("FOO", "request")]));
    assert_eq!(merged.get("FOO").as_deref(), Some("request"));
    assert_eq!(merged.get("KEEP").as_deref(), Some("default"));
}

#[test]
fn init_stores_env_vars_and_default_workdir() {
    let mut defaults = Defaults::default();
    let request = InitRequest {
        env_vars: vars(&[("SESSION_ID", "abc")]),
        default_user: None,
        default_workdir: Some("/workspace".to_owned()),
    };
    assert_eq!(init(&mut defaults, request), 204);
    assert_eq!(defaults.env_vars.get("SESSION_ID").as_deref(), Some("abc"));
    assert_eq!(defaults.workdir(), Some("/workspace".to_owned()));
}

#[test]
fn envs_returns_stored_env_vars() {
    let defaults = Defaults { env_vars: vars(&[("FOO", "bar")]), ..Defaults::default() };
    assert_eq!(envs(&defaults).get("FOO").as_deref(), Some("bar"));
    assert_eq!(envs(&defaults).to_pairs(), vec![("FOO".to_owned(), "bar".to_owned())]);
}

#[test]
fn later_init_overrides_and_empty_init_changes_nothing() {
    let mut defaults = Defaults::default();
    for value in ["first", "second"] {
        let request = InitRequest {
            env_vars: vars(&[("A", value)]),
            default_user: Some(value.to_owned()),
            default_workdir: None,
        };
        init(&mut defaults, request);
    }
    let empty = InitRequest {
        env_vars: EnvVars::new(),
        default_user: Some(String::new()),
        default_workdir: Some(String::new()),
    };
    init(&mut defaults, empty);
    assert_eq!(defaults.env_vars.get("A").as_deref(), Some("second"));
    assert_eq!(defaults.user_or_root(), "second");
    assert_eq!(defaults.workdir(), None);
}

#[test]
fn relative_parents_are_kept_at_the_front() {
    assert_eq!(lexical_normalize(b"../../b"), b"../../b");
    assert_eq!(lexical_normalize(b"./a//b/."), b"a/b");
    assert_eq!(lexical_normalize(b""), b"");
    assert_eq!(lexical_normalize(b"/../../a"), b"/a");
    assert_eq!(parent_path(b"/a/b"), Some(b"/a".to_vec()));
    assert_eq!(parent_path(b"/a"), Some(b"/".to_vec()));
    assert_eq!(parent_path(b"/"), None);
    assert_eq!(parent_path(b"a"), Some(b"".to_vec()));
}

/// Every text of up to so many of the letters.
fn texts(letters: &[&str], most: usize) -> Vec<String> {
    let mut all = vec![String::new()];
    let mut longest = all.clone();
    for _ in 0..most {
        longest = longest
            .iter()
            .flat_map(|text| letters.iter().map(move |letter| format!("{text}{letter}")))
            .collect();
        all.extend(longest.iter().cloned());
    }
    all
}

#[test]
fn parents_and_file_names_are_those_of_path() {
    let paths = texts(&["/", ".", "a"], 7);
    assert_eq!(paths.len(), 3280);
    for path in &paths {
        let expected = Path::new(path);
        let text = |part: &Path| part.to_str().unwrap().as_bytes().to_vec();
        let name = expected.file_name().map(|name| text(Path::new(name)));
        assert_eq!(file_name_of(path.as_bytes()), name, "{path:?}");
        assert_eq!(parent_path(path.as_bytes()), expected.parent().map(text), "{path:?}");
    }
    assert_eq!(file_name_of(b"/a/"), Some(b"a".to_vec()));
    assert_eq!(file_name_of(b"/a/."), Some(b"a".to_vec()));
    assert_eq!(file_name_of(b"a/b/.."), None);
    assert_eq!(parent_path(b"/a/"), Some(b"/".to_vec()));
    assert_eq!(parent_path(b"./a"), Some(b".".to_vec()));
    assert_eq!(parent_path_or_root(b"/."), b"/");
}

#[test]
fn entries_are_named_by_the_last_component() {
    let metadata = MetadataOf {
        is_dir: true,
        mode: 0o40750,
        size: 4096,
        uid: 7,
        gid: 8,
        modified: ModifiedOf::At { seconds: 784111777, nanoseconds: 5_000_000 },
    };
    for (path, name) in [("/a/", "a"), ("/a/.", "a"), ("/a//b", "b"), ("/", "/"), ("/./", "/"), ("/a/..", "/")] {
        let entry = entry_from_meta(path.as_bytes(), &metadata, Some("owner".to_owned()), None);
        assert_eq!((entry.name.as_str(), entry.path.as_str()), (name, path));
        assert_eq!((entry.owner.as_str(), entry.group.as_str()), ("owner", "8"));
        assert_eq!((entry.mode, entry.permissions.as_str()), (0o750, "drwxr-x---"));
        assert_eq!(entry.modified_time, "1994-11-06T08:49:37.005Z");
    }
    assert_eq!(show("/t\u{e9}".as_bytes()), "/t\u{e9}");
    assert_eq!(show(b"/t\xe9"), "/t\u{fffd}");
}

#[test]
fn errors_are_written_as_they_are_where_they_are_plain() {
    let failure = FsErrorOf { kind: ErrorKind::NotFound, message: "no such file".to_owned() };
    let reply = fs_error_response(&failure);
    assert_eq!((reply.status, reply.content_type.as_str()), (404, "application/json"));
    assert_eq!(reply.body, br#"{"code":"not_found","message":"no such file"}"#);
    let reply = request_error_response(400, "no path");
    assert_eq!(reply.body, br#"{"code":"invalid_argument","message":"no path"}"#);
    let reply = error_response(400, "no cmd");
    assert_eq!(reply.body, br#"{"code":"process_error","message":"no cmd"}"#);
    let error = ConnectError::new("internal", "gone".to_owned());
    let (_, payload) = decode_frame(&encode_end_stream(Some(error)).unwrap()).unwrap();
    assert_eq!(payload, br#"{"error":{"code":"internal","message":"gone"}}"#);
    assert_eq!(write_error_object("a", "\"\n"), r#"{"code":"a","message":"\"\n"}"#);
}

#[test]
fn ranges_are_read_as_single_spans() {
    for (value, range) in [
        ("bytes=0-3", Ok(Some((0, 3)))),
        ("bytes=4-", Ok(Some((4, 9)))),
        ("bytes=-3", Ok(Some((7, 9)))),
        ("bytes=-30", Ok(Some((0, 9)))),
        ("bytes=2-99", Ok(Some((2, 9)))),
        ("bytes=+2-+3", Ok(Some((2, 3)))),
        ("bytes=9-9", Ok(Some((9, 9)))),
        ("bytes=10-", Err(())),
        ("bytes=-0", Err(())),
        ("bytes=3-2", Err(())),
        ("bytes=0-1,2-3", Err(())),
        ("bytes=", Err(())),
        ("bytes=-", Err(())),
        ("bytes=a-b", Err(())),
        ("bytes=1-2-3", Err(())),
        ("bytes=0-99999999999999999999", Err(())),
        ("items=0-1", Err(())),
    ] {
        assert_eq!(parse_range(Some(value.as_bytes()), 10), range, "{value}");
    }
    assert_eq!(parse_range(None, 10), Ok(None));
    assert_eq!(parse_range(Some(b"bytes=0-3"), 0), Err(()));
    assert_eq!(parse_range(Some(b"bytes=0-\xff"), 10), Err(()));
}

#[test]
fn http_dates_are_read_back() {
    assert_eq!(format_http_date(0), "Thu, 01 Jan 1970 00:00:00 GMT");
    assert_eq!(format_http_date(784111777), "Sun, 06 Nov 1994 08:49:37 GMT");
    for seconds in [0, 1, 951782400, 784111777, 4102444800, 253402300799] {
        assert_eq!(parse_http_date(&format_http_date(seconds)), Some(seconds));
    }
    assert_eq!(format_http_date(253402300800), "Sat, 01 Jan +10000 00:00:00 GMT");
    assert_eq!(parse_http_date("Sat, 01 Jan +10000 00:00:00 GMT"), None);
    assert_eq!(parse_http_date("Wed, 31 Dec 1969 23:59:59 GMT"), None);
    assert_eq!(parse_http_date("yesterday"), None);
    assert!(format_http_date(8210266876799).ends_with("31 Dec +262142 23:59:59 GMT"));
    assert!(format_http_date((-8334601228800i64) as u64).ends_with("01 Jan -262143 00:00:00 GMT"));
    assert_eq!(second_after_epoch(Some(-1)), None);
    assert_eq!(second_after_epoch(Some(5)), Some(5));
}

#[test]
fn credentials_are_told_apart() {
    assert_eq!(read_credentials(None), CredentialsOf::Absent);
    assert_eq!(read_credentials(Some(b"\x01")), CredentialsOf::NotText);
    assert_eq!(read_credentials(Some(b"basic dXNlcjo=")), CredentialsOf::NotBasic);
    assert_eq!(read_credentials(Some(b"Basic dXNlcjo")), CredentialsOf::NotBase64);
    assert_eq!(read_credentials(Some(b"Basic /w==")), CredentialsOf::NotUtf8);
    assert_eq!(read_credentials(Some(b"Basic cm9vdDo=")), CredentialsOf::User("root".to_owned()));
    assert_eq!(read_credentials(Some(b"Basic ")), CredentialsOf::User(String::new()));
    assert_eq!(read_credentials(Some("Basic w7xzOmE6Yg==".as_bytes())), CredentialsOf::User("\u{fc}s".to_owned()));
}

#[test]
fn frames_are_read_back() {
    let message = encode_stream_message(b"abc");
    assert_eq!(message, vec![0, 0, 0, 0, 3, 97, 98, 99]);
    assert_eq!(decode_frame(&message), Ok((0, b"abc".to_vec())));
    let long = vec![7; 70000];
    assert_eq!(encode_stream_message(&long)[..5], [0, 0, 1, 17, 112]);
    assert_eq!(decode_frame(&encode_stream_message(&long)), Ok((0, long)));
    assert_eq!(decode_frame(&message[..4]), Err(FrameError::ShortHeader));
    assert_eq!(decode_frame(&message[..7]), Err(FrameError::ShortPayload));
    assert_eq!(decode_frame(&[0, 0, 0, 0, 0, 1]), Err(FrameError::TrailingBytes));
    assert_eq!(FrameError::ShortHeader.message(), "Connect frame header is incomplete");
}

#[test]
fn streams_end_with_a_flagged_frame() {
    let (flags, payload) = decode_frame(&encode_end_stream(None).unwrap()).unwrap();
    assert_eq!((flags, payload), (END_STREAM, b"{}".to_vec()));
    let error = ConnectError::new("internal", "say \"no\"".to_owned());
    let (flags, payload) = decode_frame(&encode_end_stream(Some(error)).unwrap()).unwrap();
    assert_eq!(flags, 2);
    assert_eq!(payload, br#"{"error":{"code":"internal","message":"say \"no\""}}"#);
}

#[test]
fn permissions_are_written_in_letters() {
    assert_eq!(permission_string(true, 0o755), "drwxr-xr-x");
    assert_eq!(permission_string(false, 0o644), "-rw-r--r--");
    assert_eq!(permission_string(false, 0o7777), "-rwsrwsrwt");
    assert_eq!(permission_string(false, 0o7000), "---S--S--T");
}

fn named(name: &str, path: &str) -> FileEntry {
    FileEntryOf {
        name: name.to_owned(),
        file_type: String::new(),
        path: path.to_owned(),
        size: String::new(),
        mode: 0,
        permissions: String::new(),
        owner: String::new(),
        group: String::new(),
        modified_time: String::new(),
    }
}

#[test]
fn listings_are_ordered_by_name_and_stable() {
    let names = ["b", "a", "\u{e9}", "B", "a", "", "ab", "a"];
    let entries: Vec<FileEntry> =
        names.iter().enumerate().map(|(i, name)| named(name, &i.to_string())).collect();
    let mut expected = entries.clone();
    expected.sort_by(|left, right| left.name.cmp(&right.name));
    assert_eq!(sort_by_name(entries), expected);
    assert!(comes_before("B", "a"));
    assert!(comes_before("a", "ab"));
    assert!(!comes_before("a", "a"));
}

#[test]
fn numbers_are_written_and_read() {
    assert_eq!(decimal(0), "0");
    assert_eq!(decimal(18446744073709551615), "18446744073709551615");
    assert_eq!(signed_decimal(-2147483648), "-2147483648");
    assert_eq!(signed_decimal(42), "42");
    assert_eq!(parse_unsigned(b"18446744073709551615", u64::MAX), Some(u64::MAX));
    assert_eq!(parse_unsigned(b"18446744073709551616", u64::MAX), None);
    assert_eq!(parse_unsigned(b"+007", 7), Some(7));
    assert_eq!(parse_unsigned(b"8", 7), None);
    assert_eq!(parse_unsigned(b"+", 7), None);
    assert_eq!(parse_unsigned(b"-1", 7), None);
    assert_eq!(parse_unsigned(b"", 7), None);
}
