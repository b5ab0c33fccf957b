//! Starting commands: how a request is read, and what is started for it.

use crate::access::requesting_user;
use crate::connect::{decode_frame, frame_content, frame_error_text};
use crate::credentials::{basic_credentials, read_credentials, CredentialsOf};
use crate::defaults::{default_user, given, Defaults, DefaultsView, EnvVars};
use crate::host::{
    error, Account, ErrorKind, FsError, FsErrorOf, FsErrorView, Lookup, LookupOf, LookupView, StepOf,
};
use crate::init::initialized;
use crate::outside::{plain, plain_object};
use crate::reply::{coded_error, error_response_with_code, stream_head, stream_success, HeadOf, Reply, ReplyView};
use crate::text::{
    all_visible, borrowed, find_byte, header_bytes, is_all_visible, join, optional, optional_bytes,
    parse_unsigned, same_text, texts, u64_value,
};
use vstd::prelude::*;
use vstd::utf8::*;

verus! {

/// A command that a client wants to run.
#[derive(Clone, Debug)]
pub struct ProcessConfig {
    pub cmd: String,
    pub args: Vec<String>,
    pub envs: EnvVars,
    pub cwd: Option<String>,
}

/// The content of a `ProcessConfig`.
#[verifier::ext_equal]
pub struct ProcessConfigView {
    pub cmd: Seq<char>,
    pub args: Seq<Seq<char>>,
    pub envs: Map<Seq<char>, Seq<char>>,
    pub cwd: Option<Seq<char>>,
}

impl View for ProcessConfig {
    type V = ProcessConfigView;

    open spec fn view(&self) -> ProcessConfigView {
        ProcessConfigView {
            cmd: self.cmd@,
            args: texts(self.args@),
            envs: self.envs@,
            cwd: optional(self.cwd),
        }
    }
}

/// The user that a process runs as, where that is not the one that starts it.
#[verifier::ext_equal]
#[derive(Clone, Debug, PartialEq, Eq)]
pub struct RunAsOf<T> {
    pub username: T,
    pub account: Account,
}

pub type RunAs = RunAsOf<String>;

/// What is to be started.
#[derive(Clone, Debug)]
pub struct SpawnPlan {
    pub program: String,
    pub args: Vec<String>,
    pub envs: EnvVars,
    pub cwd: Option<String>,
    pub run_as: Option<RunAs>,
}

/// The content of a `SpawnPlan`.
#[verifier::ext_equal]
pub struct SpawnPlanView {
    pub program: Seq<char>,
    pub args: Seq<Seq<char>>,
    pub envs: Map<Seq<char>, Seq<char>>,
    pub cwd: Option<Seq<char>>,
    pub run_as: Option<RunAsOf<Seq<char>>>,
}

impl View for SpawnPlan {
    type V = SpawnPlanView;

    open spec fn view(&self) -> SpawnPlanView {
        SpawnPlanView {
            program: self.program@,
            args: texts(self.args@),
            envs: self.envs@,
            cwd: optional(self.cwd),
            run_as: match self.run_as {
                Some(run_as) => Some(RunAsOf { username: run_as.username@, account: run_as.account }),
                None => None,
            },
        }
    }
}

/// The payload of a request, or why the body is no request to start a process.
pub open spec fn request_payload(body: Seq<u8>) -> Result<Seq<u8>, Seq<char>> {
    match frame_content(body) {
        Err(error) => Err(frame_error_text(error)),
        Ok((flags, payload)) => if flags == 0 {
            Ok(payload)
        } else {
            Err("Process.Start request must be a regular Connect frame"@)
        },
    }
}

/// Takes the payload out of the body of a request.
pub fn decode_request(body: &[u8]) -> (payload: Result<Vec<u8>, String>)
    ensures
        match payload {
            Ok(payload) => request_payload(body@) == Ok::<Seq<u8>, Seq<char>>(payload@),
            Err(message) => request_payload(body@) == Err::<Seq<u8>, Seq<char>>(message@),
        },
{
    match decode_frame(body) {
        Err(error) => Err(error.message()),
        Ok((flags, payload)) => if flags == 0 {
            Ok(payload)
        } else {
            Err("Process.Start request must be a regular Connect frame".to_owned())
        },
    }
}

/// The user that a process runs as, given what the `Authorization` header says and the default user.
pub open spec fn process_user(
    credentials: CredentialsOf<Seq<char>>,
    fallback: Seq<char>,
) -> Result<Seq<char>, Seq<char>> {
    match credentials {
        CredentialsOf::Absent => Ok(fallback),
        CredentialsOf::NotText => Err("Authorization header is not valid UTF-8"@),
        CredentialsOf::NotBasic => Err("Authorization must use Basic authentication"@),
        CredentialsOf::NotBase64 => Err("Authorization credentials are not valid base64"@),
        CredentialsOf::NotUtf8 => Err("Authorization credentials are not valid UTF-8"@),
        CredentialsOf::User(name) => if name.len() == 0 {
            Ok(fallback)
        } else {
            Ok(name)
        },
    }
}

/// Names the user that a process runs as, given what the `Authorization` header says.
pub fn credentials_user(credentials: CredentialsOf<String>, fallback: String) -> (user: Result<String, String>)
    ensures
        match user {
            Ok(name) => process_user(credentials@, fallback@) == Ok::<Seq<char>, Seq<char>>(name@),
            Err(message) => process_user(credentials@, fallback@) == Err::<Seq<char>, Seq<char>>(message@),
        },
{
    match credentials {
        CredentialsOf::Absent => Ok(fallback),
        CredentialsOf::NotText => Err("Authorization header is not valid UTF-8".to_owned()),
        CredentialsOf::NotBasic => Err("Authorization must use Basic authentication".to_owned()),
        CredentialsOf::NotBase64 => Err("Authorization credentials are not valid base64".to_owned()),
        CredentialsOf::NotUtf8 => Err("Authorization credentials are not valid UTF-8".to_owned()),
        CredentialsOf::User(name) => if name.as_str().is_empty() {
            Ok(fallback)
        } else {
            Ok(name)
        },
    }
}

/// Names the user that a process runs as.
pub fn basic_auth_user(authorization: Option<&[u8]>, defaults: &Defaults) -> (user: Result<String, String>)
    ensures
        ({
            let expected = process_user(
                basic_credentials(header_bytes(authorization)),
                default_user(defaults@.user),
            );
            match user {
                Ok(name) => expected == Ok::<Seq<char>, Seq<char>>(name@),
                Err(message) => expected == Err::<Seq<char>, Seq<char>>(message@),
            }
        }),
{
    credentials_user(read_credentials(authorization), defaults.user_or_root())
}

/// The time limit in milliseconds that a `Connect-Timeout-Ms` header sets.
pub open spec fn timeout_limit(header: Option<Seq<u8>>) -> Result<Option<u64>, Seq<char>> {
    match header {
        None => Ok(None),
        Some(value) => if !all_visible(value) {
            Err("Connect-Timeout-Ms is not valid UTF-8"@)
        } else {
            match u64_value(value) {
                Some(milliseconds) => Ok(Some(milliseconds)),
                None => Err("Connect-Timeout-Ms must be an unsigned integer"@),
            }
        },
    }
}

/// Reads the time limit in milliseconds.
pub fn connect_timeout(header: Option<&[u8]>) -> (timeout: Result<Option<u64>, String>)
    ensures
        match timeout {
            Ok(limit) => timeout_limit(header_bytes(header)) == Ok::<Option<u64>, Seq<char>>(limit),
            Err(message) => timeout_limit(header_bytes(header)) == Err::<Option<u64>, Seq<char>>(message@),
        },
{
    match header {
        None => Ok(None),
        Some(value) => if !is_all_visible(value) {
            Err("Connect-Timeout-Ms is not valid UTF-8".to_owned())
        } else {
            match parse_unsigned(value, u64::MAX) {
                Some(milliseconds) => Ok(Some(milliseconds)),
                None => Err("Connect-Timeout-Ms must be an unsigned integer".to_owned()),
            }
        },
    }
}

/// Whom a process runs as: nobody else for `root`, otherwise the account of the user.
pub open spec fn spawn_user(user: Seq<char>, lookup: LookupView) -> Result<Option<RunAsOf<Seq<char>>>, FsErrorView> {
    if user == "root"@ {
        Ok(None)
    } else {
        match lookup {
            LookupOf::Failed(message) => Err(
                FsErrorOf { kind: ErrorKind::Other, message: "lookup user "@ + user + ": "@ + message },
            ),
            LookupOf::Missing => Err(
                FsErrorOf { kind: ErrorKind::NotFound, message: "user "@ + user + " not found"@ },
            ),
            LookupOf::Found(account) => if encode_utf8(user).contains(0) {
                Err(FsErrorOf { kind: ErrorKind::InvalidInput, message: "username contains NUL"@ })
            } else {
                Ok(Some(RunAsOf { username: user, account }))
            },
        }
    }
}

/// What is started for a request. The variables of the request override the default ones; the working
/// directory of the request comes before the default one.
pub open spec fn spawn_plan(
    config: ProcessConfigView,
    user: Seq<char>,
    defaults: DefaultsView,
    lookup: LookupView,
) -> Result<SpawnPlanView, FsErrorView> {
    match spawn_user(user, lookup) {
        Err(failure) => Err(failure),
        Ok(run_as) => Ok(
            SpawnPlanView {
                program: config.cmd,
                args: config.args,
                envs: defaults.env_vars.union_prefer_right(config.envs),
                cwd: match config.cwd {
                    Some(cwd) => Some(cwd),
                    None => given(defaults.workdir),
                },
                run_as,
            },
        ),
    }
}

/// Decides what is started for a request, given what the search for the account of the user brought.
/// The search does not matter for `root`.
pub fn spawn_process(config: ProcessConfig, user: &str, defaults: &Defaults, lookup: &Lookup) -> (plan: Result<
    SpawnPlan,
    FsError,
>)
    ensures
        match plan {
            Ok(plan) => spawn_plan(config@, user@, defaults@, lookup@) == Ok::<SpawnPlanView, FsErrorView>(plan@),
            Err(failure) => spawn_plan(config@, user@, defaults@, lookup@) == Err::<SpawnPlanView, FsErrorView>(
                failure@,
            ),
        },
        plan matches Ok(plan) ==> {
            &&& plan.program@ == config.cmd@
            &&& plan.args@.len() == config.args@.len()
            &&& forall|i: int| 0 <= i < config.args@.len() ==> (#[trigger] plan.args@[i])@ == config.args@[i]@
        },
{
    let run_as: Option<RunAs> = if same_text(user, "root") {
        None
    } else {
        match lookup {
            LookupOf::Failed(message) => {
                let mut text: String = join("lookup user ", user);
                text = join(text.as_str(), ": ");
                text = join(text.as_str(), message.as_str());
                return Err(FsErrorOf { kind: ErrorKind::Other, message: text });
            },
            LookupOf::Missing => {
                let start: String = join("user ", user);
                return Err(
                    FsErrorOf { kind: ErrorKind::NotFound, message: join(start.as_str(), " not found") },
                );
            },
            LookupOf::Found(account) => {
                let bytes = user.as_bytes();
                let place: usize = find_byte(bytes, 0);
                if place < bytes.len() {
                    assert(bytes@.contains(0)) by {
                        assert(bytes@[place as int] == 0);
                    }
                    return Err(error(ErrorKind::InvalidInput, "username contains NUL"));
                }
                assert(!bytes@.contains(0));
                Some(RunAsOf { username: user.to_owned(), account: *account })
            },
        }
    };
    let envs: EnvVars = defaults.merged_env_vars(&config.envs);
    let cwd: Option<String> = match config.cwd {
        Some(cwd) => Some(cwd),
        None => defaults.workdir(),
    };
    Ok(SpawnPlan { program: config.cmd, args: config.args, envs, cwd, run_as })
}

/// The reply to a request that starts no process.
pub open spec fn process_error(status: u16, message: Seq<char>) -> ReplyView {
    coded_error(status, "process_error"@, message)
}

/// Makes the reply to a request that starts no process.
pub fn error_response(status: u16, message: &str) -> (reply: Reply)
    ensures
        reply@ == process_error(status, message@),
        plain(message@) ==> reply@.body == encode_utf8(
            plain_object("code"@, "process_error"@, "message"@, message@),
        ),
{
    proof {
        reveal_strlit("process_error");
    }
    error_response_with_code(status, "process_error", message)
}

/// A question of a request to start a process: to read the JSON payload, to search an account, or to
/// start what was planned, with empty input and with its output caught.
#[derive(Debug)]
pub enum StartOp {
    Parse(Vec<u8>),
    FindAccount(String),
    Spawn(SpawnPlan),
}

/// The content of a `StartOp`.
#[verifier::ext_equal]
pub enum StartOpView {
    Parse(Seq<u8>),
    FindAccount(Seq<char>),
    Spawn(SpawnPlanView),
}

impl View for StartOp {
    type V = StartOpView;

    open spec fn view(&self) -> StartOpView {
        match self {
            StartOp::Parse(payload) => StartOpView::Parse(payload@),
            StartOp::FindAccount(name) => StartOpView::FindAccount(name@),
            StartOp::Spawn(plan) => StartOpView::Spawn(plan@),
        }
    }
}

/// An answer to a question of a request to start a process.
#[derive(Debug)]
pub enum StartAnswer {
    Parsed(ProcessConfig),
    Malformed(String),
    Account(Lookup),
    Spawned { pid: u32 },
    NotSpawned(String),
}

/// The content of a `StartAnswer`.
#[verifier::ext_equal]
pub enum StartAnswerView {
    Parsed(ProcessConfigView),
    Malformed(Seq<char>),
    Account(LookupView),
    Spawned { pid: u32 },
    NotSpawned(Seq<char>),
}

impl View for StartAnswer {
    type V = StartAnswerView;

    open spec fn view(&self) -> StartAnswerView {
        match self {
            StartAnswer::Parsed(config) => StartAnswerView::Parsed(config@),
            StartAnswer::Malformed(message) => StartAnswerView::Malformed(message@),
            StartAnswer::Account(lookup) => StartAnswerView::Account(lookup@),
            StartAnswer::Spawned { pid } => StartAnswerView::Spawned { pid: *pid },
            StartAnswer::NotSpawned(message) => StartAnswerView::NotSpawned(message@),
        }
    }
}

/// A request to start a process, by what it waits for: its payload, the account of its user, or that
/// the process is started.
#[derive(Debug)]
pub enum Start {
    Parse { authorization: Option<Vec<u8>>, limit: Option<Vec<u8>>, defaults: Defaults },
    Account { config: ProcessConfig, user: String, timeout: Option<u64>, defaults: Defaults },
    Spawn { timeout: Option<u64> },
}

/// The content of a `Start`.
#[verifier::ext_equal]
pub enum StartView {
    Parse { authorization: Option<Seq<u8>>, limit: Option<Seq<u8>>, defaults: DefaultsView },
    Account { config: ProcessConfigView, user: Seq<char>, timeout: Option<u64>, defaults: DefaultsView },
    Spawn { timeout: Option<u64> },
}

impl View for Start {
    type V = StartView;

    open spec fn view(&self) -> StartView {
        match self {
            Start::Parse { authorization, limit, defaults } => StartView::Parse {
                authorization: optional_bytes(*authorization),
                limit: optional_bytes(*limit),
                defaults: defaults@,
            },
            Start::Account { config, user, timeout, defaults } => StartView::Account {
                config: config@,
                user: user@,
                timeout: *timeout,
                defaults: defaults@,
            },
            Start::Spawn { timeout } => StartView::Spawn { timeout: *timeout },
        }
    }
}

/// A process that was started, with its time limit in milliseconds, and the head of the stream that the
/// client is told of it in.
#[verifier::ext_equal]
#[derive(Clone, Debug, PartialEq, Eq)]
pub struct StartedOf<T> {
    pub head: HeadOf<T>,
    pub pid: u32,
    pub timeout: Option<u64>,
}

pub type Started = StartedOf<String>;

pub type StartedView = StartedOf<Seq<char>>;

impl View for StartedOf<String> {
    type V = StartedOf<Seq<char>>;

    open spec fn view(&self) -> StartedOf<Seq<char>> {
        StartedOf { head: self.head@, pid: self.pid, timeout: self.timeout }
    }
}

pub type StartStep = StepOf<StartOp, Start, Started, Reply>;

pub type StartStepView = StepOf<StartOpView, StartView, StartedView, ReplyView>;

/// Begins with the payload of the request.
pub open spec fn start_begin(
    body: Seq<u8>,
    authorization: Option<Seq<u8>>,
    timeout: Option<Seq<u8>>,
    defaults: DefaultsView,
) -> StartStepView {
    match request_payload(body) {
        Ok(payload) => StepOf::Ask(
            StartOpView::Parse(payload),
            StartView::Parse { authorization, limit: timeout, defaults },
        ),
        Err(message) => StepOf::Fail(process_error(400, message)),
    }
}

/// Starts what is planned.
pub open spec fn start_planned(
    config: ProcessConfigView,
    user: Seq<char>,
    timeout: Option<u64>,
    defaults: DefaultsView,
    lookup: LookupView,
) -> StartStepView {
    match spawn_plan(config, user, defaults, lookup) {
        Ok(plan) => StepOf::Ask(StartOpView::Spawn(plan), StartView::Spawn { timeout }),
        Err(failure) => StepOf::Fail(process_error(500, failure.message)),
    }
}

/// Goes on with the command: names the user, reads the time limit, and looks for the account of a
/// user other than `root`.
pub open spec fn start_config(
    config: ProcessConfigView,
    authorization: Option<Seq<u8>>,
    timeout: Option<Seq<u8>>,
    defaults: DefaultsView,
) -> StartStepView {
    match (process_user(basic_credentials(authorization), default_user(defaults.user)), timeout_limit(timeout)) {
        (Err(message), _) => StepOf::Fail(process_error(400, message)),
        (Ok(_), Err(message)) => StepOf::Fail(process_error(400, message)),
        (Ok(user), Ok(limit)) => if user == "root"@ {
            start_planned(config, user, limit, defaults, LookupOf::Missing)
        } else {
            StepOf::Ask(
                StartOpView::FindAccount(user),
                StartView::Account { config, user, timeout: limit, defaults },
            )
        },
    }
}

/// The description of an answer to another question than the one asked.
pub open spec fn unexpected_answer() -> Seq<char> {
    "unexpected answer from the host"@
}

/// Goes on with an answer.
pub open spec fn start_next(start: StartView, answer: StartAnswerView) -> StartStepView {
    match (start, answer) {
        (StartView::Parse { authorization, limit, defaults }, StartAnswerView::Parsed(config)) => start_config(
            config,
            authorization,
            limit,
            defaults,
        ),
        (StartView::Parse { .. }, StartAnswerView::Malformed(message)) => StepOf::Fail(process_error(400, message)),
        (StartView::Account { config, user, timeout, defaults }, StartAnswerView::Account(lookup)) => {
            start_planned(config, user, timeout, defaults, lookup)
        },
        (StartView::Spawn { timeout }, StartAnswerView::Spawned { pid }) => StepOf::Finish(
            StartedOf { head: stream_success(), pid, timeout },
        ),
        (StartView::Spawn { .. }, StartAnswerView::NotSpawned(message)) => StepOf::Fail(
            process_error(500, message),
        ),
        _ => StepOf::Fail(process_error(500, unexpected_answer())),
    }
}

/// Begins to answer a request to start a process.
pub fn start(
    body: &[u8],
    authorization: Option<Vec<u8>>,
    timeout: Option<Vec<u8>>,
    defaults: Defaults,
) -> (step: StartStep)
    ensures
        step@ == start_begin(body@, optional_bytes(authorization), optional_bytes(timeout), defaults@),
{
    match decode_request(body) {
        Ok(payload) => StepOf::Ask(
            StartOp::Parse(payload),
            Start::Parse { authorization, limit: timeout, defaults },
        ),
        Err(message) => StepOf::Fail(error_response(400, message.as_str())),
    }
}

/// Starts what is planned.
fn planned(
    config: ProcessConfig,
    user: &str,
    timeout: Option<u64>,
    defaults: &Defaults,
    lookup: &Lookup,
) -> (step: StartStep)
    ensures
        step@ == start_planned(config@, user@, timeout, defaults@, lookup@),
{
    match spawn_process(config, user, defaults, lookup) {
        Ok(plan) => StepOf::Ask(StartOp::Spawn(plan), Start::Spawn { timeout }),
        Err(failure) => StepOf::Fail(error_response(500, failure.message.as_str())),
    }
}

impl Start {
    /// Goes on with an answer.
    pub fn step(self, answer: StartAnswer) -> (step: StartStep)
        ensures
            step@ == start_next(self@, answer@),
    {
        match (self, answer) {
            (Start::Parse { authorization, limit, defaults }, StartAnswer::Parsed(config)) => {
                let user: String = match basic_auth_user(borrowed(&authorization), &defaults) {
                    Ok(user) => user,
                    Err(message) => {
                        return StepOf::Fail(error_response(400, message.as_str()));
                    },
                };
                let timeout: Option<u64> = match connect_timeout(borrowed(&limit)) {
                    Ok(timeout) => timeout,
                    Err(message) => {
                        return StepOf::Fail(error_response(400, message.as_str()));
                    },
                };
                if same_text(user.as_str(), "root") {
                    planned(config, user.as_str(), timeout, &defaults, &LookupOf::Missing)
                } else {
                    StepOf::Ask(
                        StartOp::FindAccount(user.clone()),
                        Start::Account { config, user, timeout, defaults },
                    )
                }
            },
            (Start::Parse { .. }, StartAnswer::Malformed(message)) => StepOf::Fail(
                error_response(400, message.as_str()),
            ),
            (Start::Account { config, user, timeout, defaults }, StartAnswer::Account(lookup)) => planned(
                config,
                user.as_str(),
                timeout,
                &defaults,
                &lookup,
            ),
            (Start::Spawn { timeout }, StartAnswer::Spawned { pid }) => StepOf::Finish(
                StartedOf { head: stream_head(), pid, timeout },
            ),
            (Start::Spawn { .. }, StartAnswer::NotSpawned(message)) => StepOf::Fail(
                error_response(500, message.as_str()),
            ),
            _ => StepOf::Fail(error_response(500, "unexpected answer from the host")),
        }
    }
}

/// The user of a process and the user of a filesystem request are read from the header alike where
/// `root` is the default: one is accepted exactly where the other is, and they are the same.
pub proof fn law_users_are_read_alike(credentials: CredentialsOf<Seq<char>>)
    ensures
        match (process_user(credentials, "root"@), requesting_user(credentials)) {
            (Ok(process), Ok(request)) => process == request,
            (Err(_), Err(_)) => true,
            _ => false,
        },
{
}

/// A process runs as the user that was named: as nobody else for `root`, and otherwise with the
/// account that was found for that name.
pub proof fn law_process_runs_as_its_user(
    config: ProcessConfigView,
    user: Seq<char>,
    defaults: DefaultsView,
    lookup: LookupView,
)
    ensures
        spawn_plan(config, user, defaults, lookup) matches Ok(plan) ==> match plan.run_as {
            None => user == "root"@,
            Some(run_as) => user != "root"@ && run_as.username == user && lookup == LookupView::Found(
                run_as.account,
            ),
        },
{
}

/// A process is started only for a request whose payload was read, whose user was accepted, and whose
/// time limit was accepted: a request that fails on one of them ends before.
pub proof fn law_refused_requests_start_nothing(
    config: ProcessConfigView,
    authorization: Option<Seq<u8>>,
    timeout: Option<Seq<u8>>,
    defaults: DefaultsView,
)
    requires
        process_user(basic_credentials(authorization), default_user(defaults.user)) is Err || timeout_limit(
            timeout,
        ) is Err,
    ensures
        start_next(StartView::Parse { authorization, limit: timeout, defaults }, StartAnswerView::Parsed(config)) matches
            StepOf::Fail(reply) && reply.status == 400,
{
}

/// What `/init` sets holds for later processes. They have its variables, except where the command sets
/// the same ones; they run in its working directory, except where the command names one; and they run as
/// its user, except where the header names one.
pub proof fn law_init_applies_to_later_processes(
    before: DefaultsView,
    env_vars: Map<Seq<char>, Seq<char>>,
    user: Option<Seq<char>>,
    workdir: Option<Seq<char>>,
    config: ProcessConfigView,
    name: Seq<char>,
    runner: Seq<char>,
    lookup: LookupView,
)
    ensures
        ({
            let defaults = initialized(before, env_vars, user, workdir);
            &&& given(user) is Some ==> process_user(CredentialsOf::Absent, default_user(defaults.user)) == Ok::<
                Seq<char>,
                Seq<char>,
            >(given(user)->0)
            &&& spawn_plan(config, runner, defaults, lookup) matches Ok(plan) ==> {
                &&& env_vars.contains_key(name) && !config.envs.contains_key(name) ==> plan.envs.contains_key(name)
                    && plan.envs[name] == env_vars[name]
                &&& config.envs.contains_key(name) ==> plan.envs.contains_key(name) && plan.envs[name]
                    == config.envs[name]
                &&& config.cwd is None && given(workdir) is Some ==> plan.cwd == given(workdir)
                &&& config.cwd is Some ==> plan.cwd == config.cwd
            }
        }),
{
}

/// A process that was started is answered with status 200, the head of a stream, and the time limit that
/// the request set.
pub proof fn law_started_process_is_answered_with_a_stream(
    config: ProcessConfigView,
    authorization: Option<Seq<u8>>,
    timeout: Option<Seq<u8>>,
    defaults: DefaultsView,
    lookup: LookupView,
    pid: u32,
)
    ensures
        ({
            let first = start_next(
                StartView::Parse { authorization, limit: timeout, defaults },
                StartAnswerView::Parsed(config),
            );
            let planned = match first {
                StepOf::Ask(StartOpView::FindAccount(_), next) => start_next(next, StartAnswerView::Account(lookup)),
                step => step,
            };
            planned matches StepOf::Ask(op, next) ==> {
                &&& op is Spawn
                &&& timeout_limit(timeout) matches Ok(limit)
                &&& start_next(next, StartAnswerView::Spawned { pid }) == StartStepView::Finish(
                    StartedOf {
                        head: HeadOf { status: 200, content_type: "application/connect+json"@ },
                        pid,
                        timeout: limit,
                    },
                )
            }
        }),
{
}

} // verus!
