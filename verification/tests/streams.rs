use cube_envd::connect::{encode_stream_message, ConnectError};
use cube_envd::defaults::{Defaults, EnvVars};
use cube_envd::host::{
    Account, AnswerOf, ErrorKind, FsErrorOf, FsOpOf, Lookup, LookupOf, MetadataOf, ModifiedOf, StepOf,
};
use cube_envd::process::{
    basic_auth_user, connect_timeout, spawn_process, start, ProcessConfig, RunAsOf, SpawnPlan, StartAnswer, StartOp,
    Started, StartedOf,
};
use cube_envd::reply::{ok_reply, stream_head, Head, HeadOf, Reply};
use cube_envd::running::{
    end_event_fields, exit_status_fields, read_event, Action, ActionOf, EndEvent, EndingOf, ProcessEventOf, Run,
    RunEvent, RunEventOf, RunOf,
};
use cube_envd::termination::{
    from_exit_status, legacy_signal_name, pick_counter, read_oom_counter, signal_name, was_oom_killed, ExitStatus,
};
use cube_envd::watch::{event_type, watch_dir, WatchAnswer, WatchOp, WATCH_MASK};
use cube_envd::watcher::{run_watcher, ChangeOf, Phase, RawChangeOf, Watcher, WatcherEvent, WatcherOp, WatcherOpOf};
use base64::Engine;
use inotify::{EventMask, WatchMask};

fn connect_head() -> Head {
    HeadOf { status: 200, content_type: "application/connect+json".to_owned() }
}

fn config(cmd: &str, args: &[&str]) -> ProcessConfig {
    ProcessConfig {
        cmd: cmd.to_owned(),
        args: args.iter().map(|arg| (*arg).to_owned()).collect(),
        envs: EnvVars::new(),
        cwd: None,
    }
}

fn code(code: i32) -> ExitStatus {
    ExitStatus { signal: None, code: Some(code), core_dumped: false }
}

fn signal(signal: i32) -> ExitStatus {
    ExitStatus { signal: Some(signal), code: None, core_dumped: false }
}

fn find(name: &str) -> Lookup {
    if name == "user" {
        LookupOf::Found(Account { uid: 1000, gid: 1000 })
    } else {
        LookupOf::Missing
    }
}

/// Answers all questions of a request to start a command, and collects what is started.
fn launch(
    payload: &[u8],
    command: ProcessConfig,
    authorization: Option<&[u8]>,
    timeout: Option<&[u8]>,
) -> (Result<Started, Reply>, Vec<SpawnPlan>) {
    let mut plans = Vec::new();
    let body = encode_stream_message(payload);
    let mut step =
        start(&body, authorization.map(<[u8]>::to_vec), timeout.map(<[u8]>::to_vec), Defaults::default());
    loop {
        step = match step {
            StepOf::Ask(StartOp::Parse(read), state) => {
                assert_eq!(read, payload);
                state.step(StartAnswer::Parsed(command.clone()))
            }
            StepOf::Ask(StartOp::FindAccount(name), state) => state.step(StartAnswer::Account(find(&name))),
            StepOf::Ask(StartOp::Spawn(plan), state) => {
                plans.push(plan);
                state.step(StartAnswer::Spawned { pid: 4711 })
            }
            StepOf::Finish(started) => return (Ok(started), plans),
            StepOf::Fail(reply) => return (Err(reply), plans),
        };
    }
}

fn run(limited: bool, events: Vec<RunEvent>) -> (Run, Vec<Action>) {
    let (mut run, opening) = RunOf::open(7, limited);
    assert_eq!(opening, ProcessEventOf::Start { pid: 7 });
    let actions = events.into_iter().map(|event| run.step(event)).collect();
    (run, actions)
}

/// Closes a finished run.
fn close(run: Run, oom_killed: bool) -> EndEvent {
    let closing = run.close(oom_killed).expect("the run is finished");
    assert_eq!(closing.frame, vec![2, 0, 0, 0, 2, 123, 125]);
    match closing.end {
        ProcessEventOf::End(end) => end,
        other => panic!("{other:?}"),
    }
}

fn json(reply: &Reply) -> serde_json::Value {
    serde_json::from_slice(&reply.body).unwrap()
}

fn decoded(text: &Option<String>) -> String {
    let bytes = base64::engine::general_purpose::STANDARD.decode(text.as_ref().unwrap()).unwrap();
    String::from_utf8(bytes).unwrap()
}

#[test]
fn command_stream_contains_start_data_and_end() {
    let payload = br#"{"process":{"cmd":"/bin/bash","args":["-c","echo -n hello; echo -n world >&2; exit 42"]},"stdin":false}"#;
    let command = config("/bin/bash", &["-c", "echo -n hello; echo -n world >&2; exit 42"]);
    let (started, plans) = launch(payload, command, Some(b"Basic cm9vdDo="), None);
    assert_eq!(started.unwrap(), StartedOf { head: connect_head(), pid: 4711, timeout: None });
    assert_eq!(plans.len(), 1);
    assert_eq!(plans[0].program, "/bin/bash");
    assert_eq!(plans[0].args[1], "echo -n hello; echo -n world >&2; exit 42");
    assert_eq!(plans[0].run_as, None);

    let (run, actions) = run(
        false,
        vec![
            RunEventOf::Stdout(b"hello".to_vec()),
            RunEventOf::Ended(EndingOf::Status(code(42))),
            RunEventOf::ReaderDone,
            RunEventOf::Stderr(b"world".to_vec()),
            RunEventOf::ReaderDone,
        ],
    );
    match (&actions[0], &actions[3]) {
        (
            ActionOf::Send(ProcessEventOf::Data { stdout, stderr: None }),
            ActionOf::Send(ProcessEventOf::Data { stdout: None, stderr }),
        ) => {
            assert_eq!(decoded(stdout), "hello");
            assert_eq!(decoded(stderr), "world");
        }
        other => panic!("{other:?}"),
    }
    assert!(run.is_finished());
    let end = close(run, false);
    assert_eq!(end.exit_code, Some(42));
    assert!(end.exited);
    assert_eq!(end.status, "exit status 42");
    assert_eq!(end.error.as_deref(), Some("exit status 42"));
    assert_eq!(end.termination.reason, "exited");
}

#[test]
fn signaled_process_reports_go_style_signal_status() {
    let events = vec![
        RunEventOf::ReaderDone,
        RunEventOf::ReaderDone,
        RunEventOf::Ended(EndingOf::Status(signal(9))),
    ];
    let end = close(run(false, events).0, false);
    assert_eq!(end.exit_code, Some(-1));
    assert!(!end.exited);
    assert_eq!(end.status, "signal: killed");
    assert_eq!(end.error.as_deref(), Some("signal: killed"));
    assert_eq!(end.termination.reason, "signal");
    assert_eq!(end.termination.signal, Some(9));
    assert_eq!(end.termination.signal_name.as_deref(), Some("SIGKILL"));
}

#[test]
fn timeout_kills_process_and_reports_error() {
    let payload = br#"{"process":{"cmd":"/bin/bash","args":["-c","sleep 2"]}}"#;
    let (started, _) = launch(payload, config("/bin/bash", &["-c", "sleep 2"]), None, Some(b"10"));
    assert_eq!(started.unwrap().timeout, Some(10));
    let (run, actions) = run(
        true,
        vec![
            RunEventOf::Deadline,
            RunEventOf::Deadline,
            RunEventOf::Ended(EndingOf::Status(signal(9))),
            RunEventOf::ReaderDone,
            RunEventOf::ReaderDone,
        ],
    );
    assert_eq!(actions[0], ActionOf::Kill);
    assert_eq!(actions[1], ActionOf::Nothing);
    let end = close(run, true);
    assert_eq!(end.error.as_deref(), Some("process timed out"));
    assert_eq!(end.exit_code, None);
    assert!(!end.exited);
    assert_eq!(end.status, "signal: killed");
    assert_eq!(end.termination.reason, "timeout");
    assert_eq!(end.termination.signal, None);
}

#[test]
fn user_auth_runs_process_as_user_account_when_available() {
    let payload = br#"{"process":{"cmd":"/bin/bash","args":["-c","id -u"]}}"#;
    let (started, plans) = launch(payload, config("/bin/bash", &["-c", "id -u"]), Some(b"Basic dXNlcjo="), None);
    assert!(started.is_ok());
    let run_as = RunAsOf { username: "user".to_owned(), account: Account { uid: 1000, gid: 1000 } };
    assert_eq!(plans[0].run_as, Some(run_as));
}

#[test]
fn refused_starts_spawn_nothing() {
    for (authorization, timeout, status, message) in [
        (Some(b"Bearer x".as_slice()), None, 400, "Authorization must use Basic authentication"),
        (Some(b"Basic \x01".as_slice()), None, 400, "Authorization header is not valid UTF-8"),
        (Some(b"Basic !".as_slice()), None, 400, "Authorization credentials are not valid base64"),
        (Some(b"Basic /w==".as_slice()), None, 400, "Authorization credentials are not valid UTF-8"),
        (None, Some(b"ten".as_slice()), 400, "Connect-Timeout-Ms must be an unsigned integer"),
        (None, Some(b"\xff".as_slice()), 400, "Connect-Timeout-Ms is not valid UTF-8"),
        (Some(b"Basic bm9ib2R5Og==".as_slice()), None, 500, "user nobody not found"),
    ] {
        let (started, plans) = launch(b"{}", config("true", &[]), authorization, timeout);
        let reply = started.unwrap_err();
        assert_eq!(reply.status, status);
        assert_eq!(json(&reply)["code"], "process_error");
        assert_eq!(json(&reply)["message"], message);
        assert!(plans.is_empty());
    }
}

#[test]
fn start_requests_are_regular_frames() {
    let mut body = encode_stream_message(b"{}");
    body[0] = 2;
    match start(&body, None, None, Defaults::default()) {
        StepOf::Fail(reply) => {
            assert_eq!(reply.status, 400);
            assert_eq!(json(&reply)["message"], "Process.Start request must be a regular Connect frame");
        }
        other => panic!("{other:?}"),
    }
    match start(b"", None, None, Defaults::default()) {
        StepOf::Fail(reply) => assert_eq!(json(&reply)["message"], "Connect frame header is incomplete"),
        other => panic!("{other:?}"),
    }
    match start(&encode_stream_message(b"x"), None, None, Defaults::default()) {
        StepOf::Ask(_, state) => match state.step(StartAnswer::Malformed("expected value".to_owned())) {
            StepOf::Fail(reply) => assert_eq!((reply.status, json(&reply)["message"].as_str()), (400, Some("expected value"))),
            other => panic!("{other:?}"),
        },
        other => panic!("{other:?}"),
    }
}

#[test]
fn failure_to_spawn_is_internal() {
    match start(&encode_stream_message(b"{}"), None, None, Defaults::default()) {
        StepOf::Ask(_, state) => match state.step(StartAnswer::Parsed(config("missing", &[]))) {
            StepOf::Ask(StartOp::Spawn(_), state) => match state.step(StartAnswer::NotSpawned("No such file".to_owned())) {
                StepOf::Fail(reply) => assert_eq!(reply.status, 500),
                other => panic!("{other:?}"),
            },
            other => panic!("{other:?}"),
        },
        other => panic!("{other:?}"),
    }
}

#[test]
fn spawn_plans_merge_defaults() {
    let mut defaults = Defaults::default();
    defaults.env_vars.insert("A".to_owned(), "default".to_owned());
    defaults.env_vars.insert("B".to_owned(), "default".to_owned());
    defaults.workdir = Some("/work".to_owned());
    defaults.user = Some("user".to_owned());
    assert_eq!(basic_auth_user(None, &defaults), Ok("user".to_owned()));
    assert_eq!(basic_auth_user(Some(b"Basic OnNlY3JldA=="), &defaults), Ok("user".to_owned()));
    let mut command = config("env", &["-0"]);
    command.envs.insert("A".to_owned(), "request".to_owned());
    let plan = spawn_process(command.clone(), "root", &defaults, &LookupOf::Missing).unwrap();
    assert_eq!(plan.envs.get("A").as_deref(), Some("request"));
    assert_eq!(plan.envs.get("B").as_deref(), Some("default"));
    assert_eq!(plan.cwd.as_deref(), Some("/work"));
    command.cwd = Some("/tmp".to_owned());
    let plan = spawn_process(command.clone(), "root", &defaults, &LookupOf::Missing).unwrap();
    assert_eq!(plan.cwd.as_deref(), Some("/tmp"));

    let failed = LookupOf::Failed("EIO".to_owned());
    let error = spawn_process(command.clone(), "user", &defaults, &failed).unwrap_err();
    assert_eq!(error, FsErrorOf { kind: ErrorKind::Other, message: "lookup user user: EIO".to_owned() });
    let found = LookupOf::Found(Account { uid: 1, gid: 1 });
    let error = spawn_process(command, "us\0er", &defaults, &found).unwrap_err();
    assert_eq!(error.message, "username contains NUL");
    assert_eq!(error.kind, ErrorKind::InvalidInput);
}

#[test]
fn timeouts_are_milliseconds() {
    assert_eq!(connect_timeout(None), Ok(None));
    assert_eq!(connect_timeout(Some(b"0")), Ok(Some(0)));
    assert_eq!(connect_timeout(Some(b"18446744073709551615")), Ok(Some(u64::MAX)));
    assert!(connect_timeout(Some(b"18446744073709551616")).is_err());
    assert!(connect_timeout(Some(b"-1")).is_err());
}

#[test]
fn keepalives_stop_when_the_process_ends() {
    let (run, actions) = run(
        false,
        vec![
            RunEventOf::Tick,
            RunEventOf::Deadline,
            RunEventOf::Ended(EndingOf::Failed("ECHILD".to_owned())),
            RunEventOf::Tick,
            RunEventOf::Ended(EndingOf::Status(code(0))),
        ],
    );
    assert_eq!(actions[0], ActionOf::Send(ProcessEventOf::Keepalive));
    assert_eq!(actions[1..], [ActionOf::Nothing, ActionOf::Nothing, ActionOf::Nothing, ActionOf::Nothing]);
    assert!(!run.awaits_end());
    assert!(run.awaits_output());
    assert!(!run.awaits_deadline());
    assert!(!run.is_finished());
    let mut run = run.close(false).unwrap_err();
    run.step(RunEventOf::ReaderDone);
    let mut run = run.close(false).unwrap_err();
    run.step(RunEventOf::ReaderDone);
    let end = close(run, false);
    assert_eq!(end.exit_code, Some(-1));
    assert_eq!(end.status, "ECHILD");
    assert_eq!(end.termination.reason, "unknown");
}

#[test]
fn finished_runs_ignore_everything() {
    let done = vec![
        RunEventOf::ReaderDone,
        RunEventOf::ReaderDone,
        RunEventOf::Ended(EndingOf::Status(code(0))),
        RunEventOf::Stdout(b"late".to_vec()),
        RunEventOf::ReaderDone,
        RunEventOf::Deadline,
    ];
    let (run, actions) = run(true, done);
    assert!(actions.iter().all(|action| *action == ActionOf::Nothing));
    assert!(run.is_finished());
    let end = close(run, true);
    assert_eq!((end.exit_code, end.error), (Some(0), None));
}

#[test]
fn readings_become_events() {
    assert_eq!(read_event(true, b"abcd", Some(2)), RunEventOf::Stdout(b"ab".to_vec()));
    assert_eq!(read_event(false, b"abcd", Some(4)), RunEventOf::Stderr(b"abcd".to_vec()));
    assert_eq!(read_event(true, b"abcd", Some(0)), RunEventOf::ReaderDone);
    assert_eq!(read_event(true, b"abcd", None), RunEventOf::ReaderDone);
}

#[test]
fn ends_are_described() {
    assert_eq!(exit_status_fields(0), (0, true, "exit status 0".to_owned(), None));
    assert_eq!(exit_status_fields(-7).3.as_deref(), Some("exit status -7"));
    let stopped = ExitStatus { signal: None, code: None, core_dumped: false };
    assert_eq!(end_event_fields(stopped, true).0, -1);
    assert_eq!(end_event_fields(stopped, true).4.reason, "exited");
    let crashed = ExitStatus { signal: Some(11), code: None, core_dumped: true };
    let info = from_exit_status(crashed, false);
    assert_eq!(info.reason, "signal");
    assert_eq!(info.signal_name.as_deref(), Some("SIGSEGV"));
    assert!(info.core_dumped);
    assert_eq!(from_exit_status(signal(9), true).reason, "oom");
    assert_eq!(legacy_signal_name(15), "terminated");
    assert_eq!(legacy_signal_name(64), "signal 64");
    assert_eq!(signal_name(64), None);
}

#[test]
fn lack_of_memory_is_counted() {
    let events = b"low 0\nhigh 0\nmax 12\noom 3\noom_kill 2\noom_group_kill 0\n";
    assert_eq!(read_oom_counter(events), Some(2));
    assert_eq!(read_oom_counter(b"oom_kill_disable 0\nunder_oom 0\noom_kill 7"), Some(7));
    assert_eq!(read_oom_counter(b"oom 3\n"), None);
    assert_eq!(read_oom_counter(b"oom_kill x\n"), None);
    let events = b"oom_kill 2\n".as_slice();
    let control = b"oom_kill_disable 0\noom_kill 3\n".as_slice();
    let failcnt = b"4\n".as_slice();
    assert_eq!(pick_counter(Some(events), Some(control), Some(failcnt)), Some(2));
    assert_eq!(pick_counter(None, Some(control), Some(failcnt)), Some(3));
    assert_eq!(pick_counter(Some(b"oom 1\n"), None, Some(failcnt)), Some(4));
    assert_eq!(pick_counter(None, None, Some(b"none\n")), None);
    assert_eq!(pick_counter(None, None, None), None);
    assert!(was_oom_killed(Some(1), Some(2)));
    assert!(!was_oom_killed(Some(2), Some(2)));
    assert!(!was_oom_killed(None, Some(2)));
}

#[test]
fn event_types_match_upstream_filesystem_protocol() {
    assert_eq!(event_type(EventMask::CREATE.bits()).as_deref(), Some("EVENT_TYPE_CREATE"));
    assert_eq!(event_type(EventMask::DELETE.bits()).as_deref(), Some("EVENT_TYPE_REMOVE"));
    assert_eq!(event_type(EventMask::MODIFY.bits()).as_deref(), Some("EVENT_TYPE_WRITE"));
    assert_eq!(event_type(EventMask::MOVED_FROM.bits()).as_deref(), Some("EVENT_TYPE_RENAME"));
    assert_eq!(event_type(EventMask::ATTRIB.bits()).as_deref(), Some("EVENT_TYPE_CHMOD"));
}

#[test]
fn all_named_changes_are_watched() {
    let mask = WatchMask::CREATE
        | WatchMask::DELETE
        | WatchMask::MODIFY
        | WatchMask::ATTRIB
        | WatchMask::MOVED_FROM
        | WatchMask::MOVED_TO;
    assert_eq!(mask.bits(), WATCH_MASK);
    assert_eq!(event_type(EventMask::MOVED_TO.bits()).as_deref(), Some("EVENT_TYPE_RENAME"));
    assert_eq!(event_type(EventMask::IGNORED.bits()), None);
    let both = EventMask::CREATE | EventMask::ISDIR;
    assert_eq!(event_type(both.bits()).as_deref(), Some("EVENT_TYPE_CREATE"));
}

fn directory(is_dir: bool) -> WatchAnswer {
    WatchAnswer::Host(AnswerOf::Metadata(MetadataOf {
        is_dir,
        mode: 0o755,
        size: 0,
        uid: 0,
        gid: 0,
        modified: ModifiedOf::Unknown("none".to_owned()),
    }))
}

/// Answers all questions of a request to watch `/dir`.
fn watch(authorization: Option<&[u8]>, path: &str, is_dir: bool, watching: WatchAnswer) -> Result<Head, Reply> {
    let body = encode_stream_message(br#"{"path":"/dir"}"#);
    let mut step = watch_dir(&body, authorization.map(<[u8]>::to_vec));
    let mut watching = Some(watching);
    loop {
        step = match step {
            StepOf::Ask(WatchOp::Parse(_), state) => state.step(WatchAnswer::Parsed { path: path.to_owned() }),
            StepOf::Ask(WatchOp::Host(FsOpOf::FindAccount(name)), state) => {
                state.step(WatchAnswer::Host(AnswerOf::Account(find(&name))))
            }
            StepOf::Ask(WatchOp::Host(FsOpOf::Canonicalize(path)), state) => {
                state.step(WatchAnswer::Host(AnswerOf::Path(path)))
            }
            StepOf::Ask(WatchOp::Host(FsOpOf::Metadata(_)), state) => state.step(directory(is_dir)),
            StepOf::Ask(WatchOp::Watch { path, mask }, state) => {
                assert_eq!((path.as_slice(), mask), (b"/dir".as_slice(), WATCH_MASK));
                state.step(watching.take().unwrap())
            }
            StepOf::Ask(op, _) => panic!("{op:?}"),
            StepOf::Finish(head) => return Ok(head),
            StepOf::Fail(reply) => return Err(reply),
        };
    }
}

#[test]
fn watches_are_set_up_for_directories() {
    assert_eq!(watch(None, "/dir", true, WatchAnswer::Watching).unwrap(), connect_head());
    assert_eq!(watch(Some(b"Basic dXNlcjo="), "/dir", true, WatchAnswer::Watching).unwrap(), connect_head());
    let reply = watch(None, "/dir", false, WatchAnswer::Watching).unwrap_err();
    assert_eq!((reply.status, json(&reply)["message"].as_str()), (400, Some("path is not a directory")));
    let reply = watch(None, "", true, WatchAnswer::Watching).unwrap_err();
    assert_eq!(json(&reply)["message"], "path is required");
    let reply = watch(Some(b"Basic bm9ib2R5Og=="), "/dir", true, WatchAnswer::Watching).unwrap_err();
    assert_eq!(reply.status, 404);
    let reply = watch(None, "/dir", true, WatchAnswer::NotWatching("EMFILE".to_owned())).unwrap_err();
    assert_eq!(reply.status, 500);
    assert_eq!(json(&reply)["code"], "invalid_argument");
    let mut body = encode_stream_message(b"{}");
    body[0] = 1;
    match watch_dir(&body, None) {
        StepOf::Fail(reply) => {
            assert_eq!(json(&reply)["message"], "WatchDir request must be a regular Connect frame");
        }
        other => panic!("{other:?}"),
    }
}

fn after(watcher: Watcher, event: WatcherEvent, now: u64) -> (Watcher, WatcherOp) {
    watcher.step(event, now)
}

fn change(name: Option<&[u8]>, mask: EventMask) -> RawChangeOf<Vec<u8>> {
    RawChangeOf { name: name.map(<[u8]>::to_vec), mask: mask.bits() }
}

#[test]
fn watch_dir_reports_create_remove_and_releases_watcher() {
    let (watcher, op) = run_watcher(0);
    assert_eq!(op, WatcherOpOf::Announce);
    let (watcher, op) = after(watcher, WatcherEvent::Sent, 0);
    assert_eq!(op, WatcherOpOf::Pause { milliseconds: 50 });
    let (watcher, op) = after(watcher, WatcherEvent::Elapsed, 50);
    assert_eq!(op, WatcherOpOf::Read);
    let changes = vec![
        change(Some(b"a.txt"), EventMask::CREATE),
        change(None, EventMask::ATTRIB),
        change(Some(b"a.txt"), EventMask::IGNORED),
        change(Some(b"a\xff"), EventMask::DELETE),
    ];
    let (watcher, op) = after(watcher, WatcherEvent::Changes(changes), 51);
    let created = ChangeOf { name: "a.txt".to_owned(), event_type: "EVENT_TYPE_CREATE".to_owned() };
    assert_eq!(op, WatcherOpOf::Tell(created));
    let (watcher, op) = after(watcher, WatcherEvent::Sent, 52);
    let removed = ChangeOf { name: "a\u{fffd}".to_owned(), event_type: "EVENT_TYPE_REMOVE".to_owned() };
    assert_eq!(op, WatcherOpOf::Tell(removed));
    let (watcher, op) = after(watcher, WatcherEvent::Sent, 53);
    assert_eq!(op, WatcherOpOf::Pause { milliseconds: 50 });
    let (watcher, op) = after(watcher, WatcherEvent::Cancelled, 60);
    assert_eq!(op, WatcherOpOf::Release);
    assert_eq!(watcher.phase, Phase::Released);
}

#[test]
fn quiet_watches_give_signs_of_life() {
    let (watcher, _) = run_watcher(90);
    let (watcher, _) = after(watcher, WatcherEvent::NotSent, 100);
    let (watcher, _) = after(watcher, WatcherEvent::Elapsed, 30000);
    let (watcher, op) = after(watcher, WatcherEvent::WouldBlock, 30099);
    assert_eq!(op, WatcherOpOf::Pause { milliseconds: 50 });
    let (watcher, _) = after(watcher, WatcherEvent::Elapsed, 30100);
    let (watcher, op) = after(watcher, WatcherEvent::Changes(Vec::new()), 30100);
    assert_eq!(op, WatcherOpOf::Keepalive);
    let (watcher, op) = after(watcher, WatcherEvent::Sent, 30200);
    assert_eq!((op, watcher.last_event), (WatcherOpOf::Pause { milliseconds: 50 }, 30200));
}

#[test]
fn watches_are_given_up_on_failures() {
    let pausing = || after(run_watcher(0).0, WatcherEvent::Sent, 0).0;
    let reading = || after(pausing(), WatcherEvent::Elapsed, 50).0;
    let (watcher, op) = after(reading(), WatcherEvent::ReadFailed("EIO".to_owned()), 51);
    assert_eq!(op, WatcherOpOf::EndWithError(ConnectError::new("internal", "EIO".to_owned())));
    assert_eq!(after(watcher, WatcherEvent::Sent, 52).1, WatcherOpOf::Release);
    let changes = vec![change(Some(b"a"), EventMask::CREATE)];
    let (watcher, _) = after(reading(), WatcherEvent::Changes(changes), 51);
    assert_eq!(after(watcher, WatcherEvent::NotSent, 52).1, WatcherOpOf::Release);
}

#[test]
fn successes_are_answered_with_200() {
    let reply = ok_reply("text/plain", b"body".to_vec());
    assert_eq!((reply.status, reply.content_type.as_str()), (200, "text/plain"));
    assert_eq!(reply.body, b"body");
    assert_eq!((reply.accept_ranges, reply.last_modified, reply.content_range), (None, None, None));
    assert_eq!(stream_head(), connect_head());
    assert_eq!(stream_head().with_body(b"x".to_vec()).content_type, "application/connect+json");
}
