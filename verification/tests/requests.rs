use cube_envd::access::{
    can_access_directory, ensure_can_modify, request_user, validate_directory, validate_directory_or_readable,
    AccessStep,
};
use cube_envd::entry::FileEntry;
use cube_envd::files::{check_read_permission, get, FileQuery, FileQueryOf, MAX_FILE_BODY_SIZE};
use cube_envd::filesystem::{list_dir, make_dir, move_entry, remove, stat, Outcome, OutcomeOf, RequestStep};
use cube_envd::fsutil::writable_path;
use cube_envd::host::{
    Account, Answer, AnswerOf, ErrorKind, FsError, FsErrorOf, FsOp, FsOpOf, Lookup, LookupOf, Metadata, MetadataOf,
    ModifiedOf, StepOf,
};
use cube_envd::reply::{empty_response, fs_error_response, Head, HeadOf, Reply};
use cube_envd::upload::{post, UploadEntry, UploadQuery, UploadQueryOf, Uploaded};
use std::collections::BTreeMap;

const MODIFIED: u64 = 784111777;

/// A file, a directory, or a link of the host that the tests run against.
#[derive(Clone)]
struct Node {
    is_dir: bool,
    data: Vec<u8>,
    mode: u32,
    owner: Account,
    link: Option<Vec<u8>>,
}

/// A host that lives in memory.
struct Host {
    nodes: BTreeMap<Vec<u8>, Node>,
    seconds: u64,
    body: Vec<u8>,
    fields: Vec<(Option<String>, Vec<u8>)>,
    next_field: usize,
    entries: Vec<Vec<u8>>,
    changes: Vec<FsOp>,
    names_asked: usize,
    accounts_asked: usize,
    accounts_last: usize,
}

fn json_head() -> Head {
    HeadOf { status: 200, content_type: "application/json".to_owned() }
}

fn bytes(text: &str) -> Vec<u8> {
    text.as_bytes().to_vec()
}

fn not_found() -> Answer {
    AnswerOf::Failed(FsErrorOf {
        kind: ErrorKind::NotFound,
        message: "No such file or directory (os error 2)".to_owned(),
    })
}

impl Host {
    fn new() -> Host {
        let mut host = Host {
            nodes: BTreeMap::new(),
            seconds: MODIFIED,
            body: Vec::new(),
            fields: Vec::new(),
            next_field: 0,
            entries: Vec::new(),
            changes: Vec::new(),
            names_asked: 0,
            accounts_asked: 0,
            accounts_last: usize::MAX,
        };
        host.add_dir("/");
        host.add_dir("/tmp");
        host
    }

    fn add_dir(&mut self, path: &str) {
        self.add(path, true, b"", 0o40755);
    }

    fn add_file(&mut self, path: &str, data: &[u8]) {
        self.add(path, false, data, 0o100644);
    }

    fn add(&mut self, path: &str, is_dir: bool, data: &[u8], mode: u32) {
        let node = Node { is_dir, data: data.to_vec(), mode, owner: Account { uid: 0, gid: 0 }, link: None };
        self.nodes.insert(bytes(path), node);
    }

    fn add_link(&mut self, path: &str, target: &str) {
        self.add(path, false, b"", 0o120777);
        self.nodes.get_mut(path.as_bytes()).unwrap().link = Some(bytes(target));
    }

    fn own(&mut self, path: &str, mode: u32, uid: u32, gid: u32) {
        let node = self.nodes.get_mut(path.as_bytes()).unwrap();
        node.mode = mode;
        node.owner = Account { uid, gid };
    }

    fn follow(&self, path: &[u8]) -> Option<Vec<u8>> {
        let node = self.nodes.get(path)?;
        match &node.link {
            Some(target) => self.follow(target),
            None => Some(path.to_vec()),
        }
    }

    fn metadata(&self, node: &Node) -> Metadata {
        MetadataOf {
            is_dir: node.is_dir,
            mode: node.mode,
            size: node.data.len() as u64,
            uid: node.owner.uid,
            gid: node.owner.gid,
            modified: ModifiedOf::At { seconds: self.seconds, nanoseconds: 5_000_000 },
        }
    }

    fn carry_out(&mut self, op: FsOp) -> Answer {
        match op {
            FsOpOf::FindAccount(name) => {
                self.accounts_asked += 1;
                AnswerOf::Account(match name.as_str() {
                    "user" if self.accounts_asked <= self.accounts_last => {
                        LookupOf::Found(Account { uid: 1000, gid: 1000 })
                    }
                    "broken" => LookupOf::Failed("EIO: I/O error".to_owned()),
                    _ => LookupOf::Missing,
                })
            }
            FsOpOf::UserName(uid) | FsOpOf::GroupName(uid) => {
                self.names_asked += 1;
                match uid {
                    0 => AnswerOf::Name("root".to_owned()),
                    1000 => AnswerOf::Name("user".to_owned()),
                    _ => AnswerOf::NoName,
                }
            }
            FsOpOf::Canonicalize(path) => match self.follow(&path) {
                Some(path) => AnswerOf::Path(path),
                None => not_found(),
            },
            FsOpOf::Exists(path) => AnswerOf::Exists(self.follow(&path).is_some()),
            FsOpOf::Metadata(path) => match self.follow(&path) {
                Some(path) => AnswerOf::Metadata(self.metadata(&self.nodes[&path])),
                None => not_found(),
            },
            FsOpOf::LinkMetadata(path) => match self.nodes.get(&path) {
                Some(node) => AnswerOf::Metadata(self.metadata(node)),
                None => not_found(),
            },
            FsOpOf::OpenDir(path) => {
                let mut prefix = path.clone();
                if prefix.last() != Some(&47) {
                    prefix.push(47);
                }
                self.entries = self
                    .nodes
                    .keys()
                    .filter(|key| key.starts_with(&prefix) && !key[prefix.len()..].contains(&47) && **key != path)
                    .cloned()
                    .collect();
                AnswerOf::Done
            }
            FsOpOf::NextEntry => match self.entries.pop() {
                Some(path) => AnswerOf::Entry { metadata: self.metadata(&self.nodes[&path]), path },
                None => AnswerOf::NoEntry,
            },
            FsOpOf::ReadFile(path) => AnswerOf::Data(self.nodes[&path].data.clone()),
            FsOpOf::ReadBody { limit } => {
                if self.body.len() > limit {
                    AnswerOf::Failed(FsErrorOf { kind: ErrorKind::Other, message: "length limit exceeded".to_owned() })
                } else {
                    AnswerOf::Data(self.body.clone())
                }
            }
            FsOpOf::OpenForm => AnswerOf::Done,
            FsOpOf::NextField => match self.fields.get(self.next_field) {
                Some((name, _)) => {
                    self.next_field += 1;
                    AnswerOf::Field { name: name.clone() }
                }
                None => AnswerOf::NoField,
            },
            FsOpOf::ReadField => AnswerOf::Data(self.fields[self.next_field - 1].1.clone()),
            change => {
                self.changes.push(change.clone());
                self.change(change)
            }
        }
    }

    fn change(&mut self, op: FsOp) -> Answer {
        match op {
            FsOpOf::CreateDirAll(path) => {
                let text = String::from_utf8(path).unwrap();
                for (place, _) in text.match_indices('/').skip(1) {
                    if !self.nodes.contains_key(text[..place].as_bytes()) {
                        self.add_dir(&text[..place]);
                    }
                }
                if !self.nodes.contains_key(text.as_bytes()) {
                    self.add_dir(&text);
                }
            }
            FsOpOf::Rename { from, to } => {
                let node = self.nodes.remove(&from).unwrap();
                self.nodes.insert(to, node);
            }
            FsOpOf::RemoveTree(path) => self.nodes.retain(|key, _| !key.starts_with(&path)),
            FsOpOf::RemoveFile(path) => {
                self.nodes.remove(&path);
            }
            FsOpOf::WriteFile { path, data } => {
                let text = String::from_utf8(path).unwrap();
                self.add_file(&text, &data);
            }
            FsOpOf::SetMode { path, mode } => self.nodes.get_mut(&path).unwrap().mode = mode,
            FsOpOf::SetOwner { path, account } => self.nodes.get_mut(&path).unwrap().owner = account,
            other => panic!("not a change: {other:?}"),
        }
        AnswerOf::Done
    }

    fn read(&mut self, path: &str, username: Option<&str>, since: Option<Vec<u8>>, range: Option<&str>) -> Reply {
        let query: FileQuery = FileQueryOf { path: path.to_owned(), username: username.map(str::to_owned) };
        let mut step = get(query, since, range.map(bytes));
        loop {
            step = match step {
                StepOf::Ask(op, reading) => reading.step(self.carry_out(op)),
                StepOf::Finish(reply) => return reply,
                StepOf::Fail(error) => return fs_error_response(&error),
            };
        }
    }

    fn upload(&mut self, query: UploadQuery, content_type: &str) -> Result<UploadEntry, Reply> {
        let uploaded = self.upload_whole(query, content_type)?;
        assert_eq!(uploaded.head.status, 200);
        assert_eq!(uploaded.head.content_type, "text/plain; charset=utf-8");
        Ok(uploaded.entry)
    }

    fn check(&mut self, first: AccessStep) -> Result<(), FsError> {
        let mut step = first;
        loop {
            step = match step {
                StepOf::Ask(op, check) => check.step(self.carry_out(op)),
                StepOf::Finish(()) => return Ok(()),
                StepOf::Fail(error) => return Err(error),
            };
        }
    }

    fn upload_whole(&mut self, query: UploadQuery, content_type: &str) -> Result<Uploaded, Reply> {
        let mut step = post(query, Some(content_type.as_bytes()));
        loop {
            step = match step {
                StepOf::Ask(op, upload) => upload.step(self.carry_out(op)),
                StepOf::Finish(entry) => return Ok(entry),
                StepOf::Fail(reply) => return Err(reply),
            };
        }
    }

    fn run(&mut self, first: RequestStep) -> Result<Outcome, FsError> {
        let mut step = first;
        loop {
            step = match step {
                StepOf::Ask(op, request) => request.step(self.carry_out(op)),
                StepOf::Finish(outcome) => return Ok(outcome),
                StepOf::Fail(error) => return Err(error),
            };
        }
    }

    fn list(&mut self, path: &str) -> Vec<FileEntry> {
        match self.run(list_dir(None, path.to_owned())) {
            Ok(OutcomeOf::Entries { head, entries }) => {
                assert_eq!(head, json_head());
                entries
            }
            other => panic!("no listing: {other:?}"),
        }
    }
}

fn query(path: &str, username: Option<&str>) -> UploadQuery {
    UploadQueryOf::Given(FileQueryOf { path: path.to_owned(), username: username.map(str::to_owned) })
}

fn json(reply: &Reply) -> serde_json::Value {
    serde_json::from_slice(&reply.body).unwrap()
}

fn entry(outcome: Result<Outcome, FsError>) -> FileEntry {
    match outcome {
        Ok(OutcomeOf::Entry { head, entry }) => {
            assert_eq!(head, json_head());
            entry
        }
        other => panic!("no entry: {other:?}"),
    }
}

#[test]
fn raw_file_write_and_read_round_trip() {
    let mut host = Host::new();
    host.body = bytes("content");
    let entry = host.upload(query("/tmp/nested/file.txt", None), "application/octet-stream").unwrap();
    assert_eq!(entry.name, "file.txt");
    assert_eq!(entry.path, "/tmp/nested/file.txt");
    assert_eq!(entry.file_type, "file");
    assert_eq!(
        host.changes,
        vec![
            FsOpOf::CreateDirAll(bytes("/tmp/nested")),
            FsOpOf::WriteFile { path: bytes("/tmp/nested/file.txt"), data: bytes("content") },
            FsOpOf::SetMode { path: bytes("/tmp/nested/file.txt"), mode: 0o644 },
        ]
    );

    let reply = host.read("/tmp/nested/file.txt", None, None, None);
    assert_eq!(reply.status, 200);
    assert_eq!(reply.body, b"content");
    assert_eq!(reply.content_type, "text/plain; charset=utf-8");
}

#[test]
fn missing_file_returns_not_found() {
    let reply = Host::new().read("/tmp/cube-envd-file-that-does-not-exist", None, None, None);
    assert_eq!(reply.status, 404);
    assert_eq!(json(&reply)["code"], "not_found");
}

#[test]
fn multipart_file_write_is_supported() {
    let mut host = Host::new();
    host.fields = vec![
        (None, bytes("nameless")),
        (Some("other".to_owned()), bytes("ignored")),
        (Some("file".to_owned()), bytes("content-mp")),
        (Some("file".to_owned()), bytes("second")),
    ];
    let form = "multipart/form-data; boundary=cube-envd-test-boundary";
    assert!(host.upload(query("/tmp/multipart.txt", None), form).is_ok());
    assert_eq!(host.nodes[b"/tmp/multipart.txt".as_slice()].data, b"content-mp");
}

#[test]
fn form_without_a_file_is_refused() {
    let mut host = Host::new();
    host.fields = vec![(Some("other".to_owned()), bytes("ignored"))];
    let reply = host.upload(query("/tmp/a", None), "multipart/form-data; boundary=b").unwrap_err();
    assert_eq!(reply.status, 400);
    assert_eq!(json(&reply)["code"], "invalid_argument");
    assert_eq!(json(&reply)["message"], "multipart field 'file' is required");
    assert!(host.changes.is_empty());
}

#[test]
fn upload_without_a_path_is_refused() {
    for query in [UploadQueryOf::Missing, query("", None)] {
        let reply = Host::new().upload(query, "text/plain").unwrap_err();
        assert_eq!(reply.status, 400);
        assert_eq!(json(&reply)["message"], "path query parameter is required");
    }
    let malformed = UploadQueryOf::Malformed("missing field `path`".to_owned());
    let reply = Host::new().upload(malformed, "text/plain").unwrap_err();
    assert_eq!(reply.status, 400);
    assert_eq!(json(&reply)["message"], "missing field `path`");
}

#[test]
fn body_over_the_limit_is_refused() {
    let mut host = Host::new();
    host.body = vec![0; MAX_FILE_BODY_SIZE + 1];
    let reply = host.upload(query("/tmp/a", None), "application/octet-stream").unwrap_err();
    assert_eq!(reply.status, 413);
    assert_eq!(json(&reply)["message"], "length limit exceeded");
    assert!(host.changes.is_empty());
}

#[test]
fn uploads_belong_to_their_user() {
    let mut host = Host::new();
    host.body = bytes("x");
    assert!(host.upload(query("/tmp/owned", Some("user")), "text/plain").is_ok());
    assert_eq!(host.nodes[b"/tmp/owned".as_slice()].owner, Account { uid: 1000, gid: 1000 });

    let mut host = Host::new();
    let reply = host.upload(query("/tmp/owned", Some("nobody")), "text/plain").unwrap_err();
    assert_eq!(reply.status, 404);
    assert_eq!(json(&reply)["message"], "user nobody not found");
    assert!(host.changes.is_empty());
    let reply = host.upload(query("/tmp/owned", Some("broken")), "text/plain").unwrap_err();
    assert_eq!(reply.status, 500);
    assert_eq!(json(&reply)["code"], "internal");
}

#[test]
fn failure_to_give_a_file_away_is_internal() {
    let mut host = Host::new();
    host.body = bytes("x");
    let mut step = post(query("/tmp/owned", Some("user")), None);
    loop {
        step = match step {
            StepOf::Ask(FsOpOf::SetOwner { .. }, upload) => upload.step(AnswerOf::Failed(FsErrorOf {
                kind: ErrorKind::PermissionDenied,
                message: "EPERM".to_owned(),
            })),
            StepOf::Ask(op, upload) => upload.step(host.carry_out(op)),
            StepOf::Finish(entry) => panic!("{entry:?}"),
            StepOf::Fail(reply) => {
                assert_eq!(reply.status, 500);
                assert_eq!(json(&reply)["message"], "EPERM");
                break;
            }
        };
    }
}

#[test]
fn write_path_resolves_parent_dot_dot_components() {
    let mut host = Host::new();
    host.body = bytes("resolved");
    assert!(host.upload(query("/tmp/nested/../escape-check.txt", None), "application/octet-stream").is_ok());
    assert_eq!(host.nodes[b"/tmp/escape-check.txt".as_slice()].data, b"resolved");
    assert!(!host.nodes.contains_key(b"/tmp/nested".as_slice()));
}

#[test]
fn uploads_follow_links_once() {
    let mut host = Host::new();
    host.add_dir("/data");
    host.add_link("/tmp/link", "/data");
    host.body = bytes("x");
    let entry = host.upload(query("/tmp/link/a/b", None), "text/plain").unwrap();
    assert_eq!(entry.path, "/data/a/b");
}

#[test]
fn range_response_returns_requested_bytes_and_metadata() {
    let mut host = Host::new();
    host.add_file("/tmp/range.txt", b"0123456789");
    let reply = host.read("/tmp/range.txt", None, None, Some("bytes=0-3"));
    assert_eq!(reply.status, 206);
    assert_eq!(reply.content_range.as_deref(), Some("bytes 0-3/10"));
    assert_eq!(reply.accept_ranges.as_deref(), Some("bytes"));
    assert_eq!(reply.body, b"0123");
}

#[test]
fn invalid_range_returns_416_with_total_length() {
    let mut host = Host::new();
    host.add_file("/tmp/range-invalid.txt", b"0123456789");
    let reply = host.read("/tmp/range-invalid.txt", None, None, Some("bytes=999999-"));
    assert_eq!(reply.status, 416);
    assert_eq!(reply.content_range.as_deref(), Some("bytes */10"));
    assert!(reply.body.is_empty());
}

#[test]
fn matching_if_modified_since_returns_304() {
    let mut host = Host::new();
    host.add_file("/tmp/conditional.txt", b"unchanged");
    let first = host.read("/tmp/conditional.txt", None, None, None);
    assert_eq!(first.last_modified.as_deref(), Some("Sun, 06 Nov 1994 08:49:37 GMT"));
    let since = first.last_modified.map(|date| bytes(&date));
    let reply = host.read("/tmp/conditional.txt", None, since.clone(), Some("bytes=0-3"));
    assert_eq!(reply.status, 304);
    assert!(reply.body.is_empty());

    host.seconds += 1;
    let reply = host.read("/tmp/conditional.txt", None, since, None);
    assert_eq!(reply.status, 200);
    assert_eq!(reply.body, b"unchanged");
}

#[test]
fn file_over_the_limit_is_not_read() {
    let mut host = Host::new();
    host.add_file("/tmp/large", &vec![0; MAX_FILE_BODY_SIZE + 1]);
    let reply = host.read("/tmp/large", None, None, None);
    assert_eq!(reply.status, 413);
    assert_eq!(json(&reply)["message"], "file exceeds the 67108864 byte limit");
}

#[test]
fn modification_time_without_a_date_fails() {
    let mut host = Host::new();
    host.add_file("/tmp/far", b"x");
    host.seconds = 8210266876800;
    assert_eq!(host.read("/tmp/far", None, None, None).status, 500);
    assert!(host.run(stat(None, "/tmp/far".to_owned())).is_err());
    host.seconds = 8210266876799;
    assert_eq!(host.read("/tmp/far", None, None, None).status, 200);
    assert!(host.run(stat(None, "/tmp/far".to_owned())).is_ok());
}

#[test]
fn reading_respects_permission_bits() {
    let mut host = Host::new();
    host.add_file("/tmp/private", b"secret");
    host.own("/tmp/private", 0o100640, 0, 0);
    let reply = host.read("/tmp/private", Some("user"), None, None);
    assert_eq!(reply.status, 403);
    assert_eq!(json(&reply)["code"], "permission_denied");
    assert_eq!(json(&reply)["message"], "user user cannot read /tmp/private");
    host.own("/tmp/private", 0o100640, 0, 1000);
    assert_eq!(host.read("/tmp/private", Some("user"), None, None).status, 200);
    host.own("/tmp/private", 0o100040, 1000, 1000);
    assert_eq!(host.read("/tmp/private", Some("user"), None, None).status, 403);
    assert_eq!(host.read("/tmp/private", Some("root"), None, None).status, 200);
    assert_eq!(host.read("/tmp/private", Some("nobody"), None, None).status, 404);
    let metadata = host.metadata(&host.nodes[b"/tmp/private".as_slice()]);
    let owner = LookupOf::Found(Account { uid: 1000, gid: 1 });
    let member = LookupOf::Found(Account { uid: 1, gid: 1000 });
    let error = check_read_permission(b"/tmp/private", "user", &owner, &owner, &metadata).unwrap_err();
    assert_eq!(error.kind, ErrorKind::PermissionDenied);
    assert!(check_read_permission(b"/tmp/private", "user", &member, &member, &metadata).is_ok());
}

#[test]
fn read_permission_follows_the_one_class_that_applies() {
    let mut host = Host::new();
    host.add_file("/tmp/file", b"x");
    let check = |host: &Host, username: &str, validated: &Lookup, lookup: &Lookup| {
        let metadata = host.metadata(&host.nodes[b"/tmp/file".as_slice()]);
        check_read_permission(b"/tmp/file", username, validated, lookup, &metadata)
            .map_err(|error| (error.kind, error.message))
    };
    let owner = LookupOf::Found(Account { uid: 7, gid: 9 });
    let member = LookupOf::Found(Account { uid: 1, gid: 8 });
    let other = LookupOf::Found(Account { uid: 1, gid: 1 });
    let denied = Err((ErrorKind::PermissionDenied, "user user cannot read /tmp/file".to_string()));
    host.own("/tmp/file", 0o100000, 7, 8);
    for username in ["", "root"] {
        for lookup in [&owner, &other, &LookupOf::Missing, &LookupOf::Failed("down".to_string())] {
            assert_eq!(check(&host, username, lookup, lookup), Ok(()));
        }
    }
    for lookup in [&owner, &member, &other] {
        assert_eq!(check(&host, "user", lookup, lookup), denied);
    }
    for (mode, reads) in [
        (0o400, [true, false, false]),
        (0o040, [false, true, false]),
        (0o004, [false, false, true]),
        (0o044, [false, true, true]),
    ] {
        host.own("/tmp/file", 0o100000 | mode, 7, 8);
        for (lookup, readable) in [&owner, &member, &other].into_iter().zip(reads) {
            assert_eq!(check(&host, "user", lookup, lookup), if readable { Ok(()) } else { denied.clone() });
        }
    }
    let failed = LookupOf::Failed("down".to_string());
    let error = |kind: ErrorKind, message: &str| Err((kind, message.to_string()));
    assert_eq!(
        check(&host, "user", &LookupOf::Missing, &owner),
        error(ErrorKind::NotFound, "user user not found")
    );
    assert_eq!(
        check(&host, "user", &owner, &LookupOf::Missing),
        error(ErrorKind::NotFound, "user not found")
    );
    assert_eq!(check(&host, "user", &failed, &owner), error(ErrorKind::Other, "down"));
    assert_eq!(check(&host, "user", &owner, &failed), error(ErrorKind::Other, "down"));
}

#[test]
fn accounts_are_searched_anew_for_each_decision() {
    let user = Some(b"Basic dXNlcjo=".as_slice());
    let fresh = || {
        let mut host = Host::new();
        host.own("/tmp", 0o40777, 0, 0);
        host.add_file("/tmp/file", b"x");
        host.body = bytes("x");
        host
    };

    let mut host = fresh();
    assert_eq!(host.read("/tmp/file", Some("user"), None, None).status, 200);
    assert_eq!(host.accounts_asked, 2);
    let mut host = fresh();
    assert!(host.upload(query("/tmp/new", Some("user")), "text/plain").is_ok());
    assert_eq!(host.accounts_asked, 2);
    for (step, asked) in [
        (list_dir(user, "/tmp".to_owned()), 2),
        (stat(user, "/tmp".to_owned()), 3),
        (stat(user, "/tmp/file".to_owned()), 2),
        (remove(user, "/tmp/file".to_owned()), 3),
        (move_entry(user, "/tmp/file".to_owned(), "/tmp/other".to_owned()), 5),
        (make_dir(user, "/tmp/dir".to_owned()), 4),
    ] {
        let mut host = fresh();
        assert!(host.run(step).is_ok());
        assert_eq!(host.accounts_asked, asked);
    }

    // The account is gone by the time the file or the directory is to be given away.
    let mut host = fresh();
    host.accounts_last = 1;
    let reply = host.upload(query("/tmp/new", Some("user")), "text/plain").unwrap_err();
    assert_eq!((reply.status, json(&reply)["message"].as_str()), (404, Some("user not found")));
    assert!(host.nodes.contains_key(b"/tmp/new".as_slice()));
    let mut host = fresh();
    host.accounts_last = 3;
    let failure = host.run(make_dir(user, "/tmp/dir".to_owned())).unwrap_err();
    assert_eq!((failure.kind, failure.message.as_str()), (ErrorKind::NotFound, "user not found"));
    assert!(host.nodes.contains_key(b"/tmp/dir".as_slice()));
    // The account is gone between the two searches of one check.
    let mut host = fresh();
    host.accounts_last = 1;
    let reply = host.read("/tmp/file", Some("user"), None, None);
    assert_eq!((reply.status, json(&reply)["message"].as_str()), (404, Some("user not found")));
    let mut host = fresh();
    host.accounts_last = 1;
    assert_eq!(host.run(list_dir(user, "/tmp".to_owned())).unwrap_err().message, "user user not found");
    let mut host = fresh();
    host.accounts_last = 2;
    assert_eq!(host.run(remove(user, "/tmp/file".to_owned())).unwrap_err().message, "user not found");
    assert!(host.changes.is_empty());
}

#[test]
fn filesystem_rpcs_cover_lifecycle_and_metadata() {
    let mut host = Host::new();
    let created = entry(host.run(make_dir(None, "/tmp/nested".to_owned())));
    assert_eq!(created.file_type, "FILE_TYPE_DIRECTORY");
    assert_eq!(created.permissions, "drwxr-xr-x");
    assert_eq!(created.mode, 0o755);
    assert_eq!(created.modified_time, "1994-11-06T08:49:37.005Z");

    host.add_file("/tmp/nested/file.txt", b"hello");
    let listed = host.list("/tmp/nested");
    assert_eq!(listed[0].size, "5");
    assert_eq!(listed[0].permissions.len(), 10);
    assert_eq!(listed[0].owner, "root");
    assert_eq!(listed[0].group, "root");

    let moved = host.run(move_entry(None, "/tmp/nested/file.txt".to_owned(), "/tmp/nested/moved.txt".to_owned()));
    assert_eq!(entry(moved).name, "moved.txt");
    assert!(host.nodes.contains_key(b"/tmp/nested/moved.txt".as_slice()));

    assert_eq!(host.run(remove(None, "/tmp/nested".to_owned())), Ok(OutcomeOf::Empty(empty_response())));
    assert!(!host.nodes.contains_key(b"/tmp/nested".as_slice()));
    assert_eq!(host.run(remove(None, "/tmp/nested".to_owned())), Ok(OutcomeOf::Empty(empty_response())));
}

#[test]
fn list_dir_reports_symlinks_including_dangling_links() {
    let mut host = Host::new();
    host.add_file("/tmp/target.txt", b"hi");
    host.add_link("/tmp/link.txt", "/tmp/target.txt");
    host.add_link("/tmp/dangling.txt", "/tmp/missing.txt");
    let listed = host.list("/tmp");
    let names: Vec<&str> = listed.iter().map(|entry| entry.name.as_str()).collect();
    assert_eq!(names, vec!["dangling.txt", "link.txt", "target.txt"]);
}

#[test]
fn listing_asks_for_each_name_once() {
    let mut host = Host::new();
    for name in ["/tmp/c", "/tmp/a", "/tmp/b"] {
        host.add_file(name, b"");
    }
    host.own("/tmp/b", 0o104755, 7, 7);
    let listed = host.list("/tmp");
    assert_eq!(host.names_asked, 4);
    assert_eq!(listed[1].owner, "7");
    assert_eq!(listed[1].permissions, "-rwsr-xr-x");
    assert_eq!(listed[1].mode, 0o4755);
}

#[test]
fn stat_missing_path_returns_not_found() {
    let failure = Host::new().run(stat(None, "/tmp/cube-envd-missing-file".to_owned())).unwrap_err();
    assert_eq!(fs_error_response(&failure).status, 404);
}

#[test]
fn only_directories_are_listed() {
    let mut host = Host::new();
    host.add_file("/tmp/file", b"");
    let failure = host.run(list_dir(None, "/tmp/file".to_owned())).unwrap_err();
    assert_eq!(failure.message, "path is not a directory");
    assert_eq!(fs_error_response(&failure).status, 400);
    assert_eq!(host.run(list_dir(None, String::new())).unwrap_err().message, "path is required");
}

#[test]
fn root_directory_check_bypasses_permission_bits() {
    let mut host = Host::new();
    host.add_dir("/tmp/restricted");
    host.own("/tmp/restricted", 0o40000, 1000, 1000);
    assert!(host.check(validate_directory_or_readable(bytes("/tmp/restricted"), "root")).is_ok());
    assert!(host.check(ensure_can_modify(bytes("/tmp/restricted"), "root")).is_ok());
    let denied = host.check(validate_directory_or_readable(bytes("/tmp/restricted"), "user")).unwrap_err();
    assert_eq!(denied.message, "directory access denied");
    assert_eq!(denied.kind, ErrorKind::PermissionDenied);
    let denied = host.check(ensure_can_modify(bytes("/tmp/restricted"), "user")).unwrap_err();
    assert_eq!(denied.message, "directory modification denied");
    assert!(host.check(validate_directory(bytes("/tmp/restricted"), "user")).is_ok());
}

#[test]
fn one_class_of_permission_bits_decides() {
    let mut host = Host::new();
    host.add_dir("/tmp/dir");
    host.own("/tmp/dir", 0o40077, 1000, 1000);
    let metadata = host.metadata(&host.nodes[b"/tmp/dir".as_slice()]);
    let owner = LookupOf::Found(Account { uid: 1000, gid: 1000 });
    let group = LookupOf::Found(Account { uid: 1, gid: 1000 });
    let other = LookupOf::Found(Account { uid: 1, gid: 1 });
    assert_eq!(can_access_directory(&metadata, &owner, 0o300, 0o030, 0o003), Ok(false));
    assert_eq!(can_access_directory(&metadata, &group, 0o300, 0o030, 0o003), Ok(true));
    assert_eq!(can_access_directory(&metadata, &other, 0o300, 0o030, 0o003), Ok(true));
    let missing = can_access_directory(&metadata, &LookupOf::Missing, 0o300, 0o030, 0o003).unwrap_err();
    assert_eq!(missing.message, "user not found");
}

#[test]
fn users_change_only_what_they_may() {
    // The credentials are those of `user` without a password.
    let user = Some(b"Basic dXNlcjo=".as_slice());
    let mut host = Host::new();
    host.add_file("/tmp/file", b"");
    for step in [
        remove(user, "/tmp/file".to_owned()),
        make_dir(user, "/tmp/dir".to_owned()),
        move_entry(user, "/tmp/file".to_owned(), "/tmp/other".to_owned()),
    ] {
        let failure = host.run(step).unwrap_err();
        assert_eq!(failure.message, "directory modification denied");
        assert_eq!(fs_error_response(&failure).status, 403);
    }
    assert!(host.changes.is_empty());

    host.own("/tmp", 0o40777, 0, 0);
    let made = entry(host.run(make_dir(user, "/tmp/dir".to_owned())));
    assert_eq!(made.owner, "user");
    host.add_dir("/closed");
    let failure = host.run(move_entry(user, "/tmp/file".to_owned(), "/closed/file".to_owned())).unwrap_err();
    assert_eq!(failure.message, "directory modification denied");
    assert_eq!(host.run(remove(user, "/tmp/file".to_owned())), Ok(OutcomeOf::Empty(empty_response())));
    assert!(!host.nodes.contains_key(b"/tmp/file".as_slice()));
}

#[test]
fn requesting_users_are_read_from_basic_credentials() {
    assert_eq!(request_user(None).unwrap(), "root");
    assert_eq!(request_user(Some(b"Basic dXNlcjo=")).unwrap(), "user");
    assert_eq!(request_user(Some(b"Basic dXNlcg==")).unwrap(), "user");
    assert_eq!(request_user(Some(b"Basic OnNlY3JldA==")).unwrap(), "root");
    for (header, message) in [
        (b"Basic \xff".as_slice(), "invalid Authorization header"),
        (b"Bearer abc".as_slice(), "Authorization must use Basic"),
        (b"Basic !".as_slice(), "invalid Basic credentials"),
        (b"Basic /w==".as_slice(), "invalid Basic credentials"),
    ] {
        let failure = request_user(Some(header)).unwrap_err();
        assert_eq!(failure.message, message);
        assert_eq!(failure.kind, ErrorKind::InvalidInput);
    }
    let failure = Host::new().run(stat(Some(b"Basic bm9ib2R5Og=="), "/tmp".to_owned())).unwrap_err();
    assert_eq!(failure.message, "user nobody not found");
}

#[test]
fn answers_to_other_questions_end_a_request() {
    match stat(None, "/tmp".to_owned()) {
        StepOf::Ask(_, request) => match request.step(AnswerOf::NoField) {
            StepOf::Fail(failure) => assert_eq!(failure.message, "unexpected answer from the host"),
            other => panic!("{other:?}"),
        },
        other => panic!("{other:?}"),
    }
}

#[test]
fn writable_path_resolves_new_file_under_existing_parent() {
    let directory = tempfile::tempdir().unwrap();
    let target = directory.path().join("nested").join("file.txt");
    let mut step = writable_path(target.to_str().unwrap().as_bytes());
    let resolved = loop {
        step = match step {
            StepOf::Ask(FsOpOf::Exists(path), search) => {
                let path = String::from_utf8(path).unwrap();
                search.step(AnswerOf::Exists(std::path::Path::new(&path).exists()))
            }
            StepOf::Ask(FsOpOf::Canonicalize(path), search) => {
                let path = String::from_utf8(path).unwrap();
                let resolved = std::path::Path::new(&path).canonicalize().unwrap();
                search.step(AnswerOf::Path(bytes(resolved.to_str().unwrap())))
            }
            StepOf::Ask(op, _) => panic!("{op:?}"),
            StepOf::Finish(path) => break path,
            StepOf::Fail(failure) => panic!("{failure:?}"),
        };
    };
    assert_eq!(resolved, bytes(target.to_str().unwrap()));
    assert!(!directory.path().join("nested").exists());
}

#[test]
fn whole_path_is_asked_about_twice() {
    let mut asked = Vec::new();
    let mut step = writable_path(b"/tmp/new");
    let resolved = loop {
        step = match step {
            StepOf::Ask(FsOpOf::Exists(path), search) => {
                asked.push(path.clone());
                search.step(AnswerOf::Exists(path == b"/tmp"))
            }
            StepOf::Ask(_, search) => search.step(AnswerOf::Path(bytes("/real"))),
            StepOf::Finish(path) => break path,
            StepOf::Fail(failure) => panic!("{failure:?}"),
        };
    };
    assert_eq!(asked, vec![bytes("/tmp/new"), bytes("/tmp/new"), bytes("/tmp")]);
    assert_eq!(resolved, b"/real/new");

    // A path that appears between the two questions is resolved as a whole.
    let step = match writable_path(b"/tmp/new") {
        StepOf::Ask(_, search) => search.step(AnswerOf::Exists(false)),
        other => panic!("{other:?}"),
    };
    match step {
        StepOf::Ask(FsOpOf::Exists(_), search) => match search.step(AnswerOf::Exists(true)) {
            StepOf::Ask(op, _) => assert_eq!(op, FsOpOf::Canonicalize(bytes("/tmp/new"))),
            other => panic!("{other:?}"),
        },
        other => panic!("{other:?}"),
    }
}

#[test]
fn path_without_an_existing_parent_is_refused() {
    let mut step = writable_path(b"missing/file");
    let failure = loop {
        step = match step {
            StepOf::Ask(_, search) => search.step(AnswerOf::Exists(false)),
            StepOf::Finish(path) => panic!("{path:?}"),
            StepOf::Fail(failure) => break failure,
        };
    };
    assert_eq!(failure.kind, ErrorKind::InvalidInput);
    assert_eq!(failure.message, "path has no existing parent");
}
