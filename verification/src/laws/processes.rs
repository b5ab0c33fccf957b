//! What starting a process is for.

use crate::connect::{frame, frame_content, frame_error_text, law_frame_reads_back};
use crate::credentials::basic_credentials;
use crate::defaults::{default_user, DefaultsView};
use crate::host::{scripted, Account, ErrorKind, FsErrorOf, FsErrorView, LookupOf, LookupView, StepOf};
use crate::process::{
    process_error, process_user, spawn_plan, start_begin, start_next, timeout_limit, ProcessConfigView,
    RunAsOf, SpawnPlanView, StartAnswerView, StartOpView, StartStepView, StartView, StartedOf, StartedView,
};
use crate::reply::{error_object, HeadOf, ReplyView};
use crate::text::{header_content, unsigned_value};
use vstd::prelude::*;
use vstd::utf8::*;

verus! {

/// What is started is the command of the request with all of its arguments, in their order.
pub proof fn law_command_is_started_as_given(
    config: ProcessConfigView,
    user: Seq<char>,
    defaults: DefaultsView,
    lookup: LookupView,
)
    ensures
        spawn_plan(config, user, defaults, lookup) matches Ok(plan) ==> {
            &&& plan.program == config.cmd
            &&& plan.args.len() == config.args.len()
            &&& forall|i: int| 0 <= i < config.args.len() ==> #[trigger] plan.args[i] == config.args[i]
        },
{
}

/// A process has the variables of its request and the default ones, and no others; where both set one, the
/// request decides.
pub proof fn law_process_has_its_variables(
    config: ProcessConfigView,
    user: Seq<char>,
    defaults: DefaultsView,
    lookup: LookupView,
    name: Seq<char>,
)
    ensures
        spawn_plan(config, user, defaults, lookup) matches Ok(plan) ==> {
            &&& plan.envs.contains_key(name) <==> config.envs.contains_key(name) || defaults.env_vars.contains_key(name)
            &&& config.envs.contains_key(name) ==> plan.envs[name] == config.envs[name]
            &&& !config.envs.contains_key(name) && defaults.env_vars.contains_key(name) ==> plan.envs[name]
                == defaults.env_vars[name]
        },
{
}

/// A process runs in the working directory of its request, where that names one, otherwise in the default
/// one, where that was set and is not empty, and otherwise in none in particular.
pub proof fn law_process_has_its_directory(
    config: ProcessConfigView,
    user: Seq<char>,
    defaults: DefaultsView,
    lookup: LookupView,
)
    ensures
        spawn_plan(config, user, defaults, lookup) matches Ok(plan) ==> {
            &&& config.cwd is Some ==> plan.cwd == config.cwd
            &&& config.cwd is None ==> match defaults.workdir {
                Some(directory) => plan.cwd == if directory.len() > 0 {
                    Some(directory)
                } else {
                    None
                },
                None => plan.cwd is None,
            }
        },
{
}

/// A process is started for `root` as nobody else, and for another user with the name and the account of
/// that user; not at all where the user has no account, where that cannot be searched, or where the name
/// cannot be given to the system.
pub proof fn law_process_is_started_for_its_user(
    config: ProcessConfigView,
    user: Seq<char>,
    defaults: DefaultsView,
    account: Account,
    message: Seq<char>,
)
    ensures
        spawn_plan(config, "root"@, defaults, LookupOf::Missing) matches Ok(plan) && plan.run_as is None,
        spawn_plan(config, "root"@, defaults, LookupOf::Found(account)) matches Ok(plan) && plan.run_as is None,
        user != "root"@ ==> {
            &&& !encode_utf8(user).contains(0) ==> (spawn_plan(
                config,
                user,
                defaults,
                LookupOf::Found(account),
            ) matches Ok(plan) && plan.run_as == Some(RunAsOf { username: user, account }))
            &&& encode_utf8(user).contains(0) ==> spawn_plan(config, user, defaults, LookupOf::Found(account))
                == Err::<SpawnPlanView, FsErrorView>(
                FsErrorOf { kind: ErrorKind::InvalidInput, message: "username contains NUL"@ },
            )
            &&& spawn_plan(config, user, defaults, LookupOf::Missing) == Err::<SpawnPlanView, FsErrorView>(
                FsErrorOf { kind: ErrorKind::NotFound, message: "user "@ + user + " not found"@ },
            )
            &&& spawn_plan(config, user, defaults, LookupOf::Failed(message)) == Err::<SpawnPlanView, FsErrorView>(
                FsErrorOf { kind: ErrorKind::Other, message: "lookup user "@ + user + ": "@ + message },
            )
        },
{
}

/// A time limit is the number in its header; without a header there is none. Anything else than a number
/// that fits is refused.
pub proof fn law_time_limit_is_the_number_in_its_header(value: Seq<u8>)
    ensures
        timeout_limit(None) == Ok::<Option<u64>, Seq<char>>(None),
        header_content(value) is None ==> timeout_limit(Some(value)) == Err::<Option<u64>, Seq<char>>(
            "Connect-Timeout-Ms is not valid UTF-8"@,
        ),
        header_content(value) is Some ==> match unsigned_value(value) {
            Some(number) => if number <= 18446744073709551615 {
                timeout_limit(Some(value)) matches Ok(Some(limit)) && limit == number
            } else {
                timeout_limit(Some(value)) == Err::<Option<u64>, Seq<char>>(
                    "Connect-Timeout-Ms must be an unsigned integer"@,
                )
            },
            None => timeout_limit(Some(value)) == Err::<Option<u64>, Seq<char>>(
                "Connect-Timeout-Ms must be an unsigned integer"@,
            ),
        },
{
}

/// The rule by which a request to start a process goes on.
pub open spec fn starting() -> spec_fn(StartView, StartAnswerView) -> StartStepView {
    |start: StartView, answer: StartAnswerView| start_next(start, answer)
}

/// A plan is the one for a command: the command with its arguments, the variables of both, the working
/// directory of the command before the default one, and the user.
pub open spec fn plans(
    plan: SpawnPlanView,
    config: ProcessConfigView,
    user: Seq<char>,
    defaults: DefaultsView,
    account: Account,
) -> bool {
    &&& plan.program == config.cmd
    &&& plan.args == config.args
    &&& forall|name: Seq<char>| #[trigger]
        plan.envs.contains_key(name) <==> config.envs.contains_key(name) || defaults.env_vars.contains_key(name)
    &&& forall|name: Seq<char>| #[trigger]
        config.envs.contains_key(name) ==> plan.envs[name] == config.envs[name]
    &&& forall|name: Seq<char>| #[trigger]
        defaults.env_vars.contains_key(name) && !config.envs.contains_key(name) ==> plan.envs[name]
            == defaults.env_vars[name]
    &&& plan.cwd == if config.cwd is None && defaults.workdir is Some && defaults.workdir->0.len() > 0 {
        defaults.workdir
    } else {
        config.cwd
    }
    &&& plan.run_as == if user == "root"@ {
        None
    } else {
        Some(RunAsOf { username: user, account })
    }
}

/// The question for the account of a user other than `root`.
pub open spec fn account_script(user: Seq<char>, account: Account) -> Seq<(StartOpView, StartAnswerView)> {
    if user == "root"@ {
        Seq::empty()
    } else {
        seq![(StartOpView::FindAccount(user), StartAnswerView::Account(LookupOf::Found(account)))]
    }
}

/// A request starts the process that it describes: its payload is read, the account of its user is searched,
/// unless that is `root`, and what is started is the one plan for the command, the user and the defaults.
/// The client is told of the process by a stream, and the time limit is the one of the header.
#[verifier::rlimit(40)]
pub proof fn law_request_starts_its_process(
    payload: Seq<u8>,
    authorization: Option<Seq<u8>>,
    timeout: Option<Seq<u8>>,
    defaults: DefaultsView,
    config: ProcessConfigView,
    user: Seq<char>,
    limit: Option<u64>,
    account: Account,
    plan: SpawnPlanView,
    pid: u32,
)
    requires
        payload.len() <= u32::MAX,
        process_user(basic_credentials(authorization), default_user(defaults.user)) == Ok::<Seq<char>, Seq<char>>(
            user,
        ),
        timeout_limit(timeout) == Ok::<Option<u64>, Seq<char>>(limit),
        !encode_utf8(user).contains(0),
        plans(plan, config, user, defaults, account),
    ensures
        scripted(
            starting(),
            start_begin(frame(0, payload), authorization, timeout, defaults),
            seq![(StartOpView::Parse(payload), StartAnswerView::Parsed(config))] + account_script(user, account)
                + seq![(StartOpView::Spawn(plan), StartAnswerView::Spawned { pid })],
            0,
        ) == Some(
            StartStepView::Finish(
                StartedOf {
                    head: HeadOf { status: 200, content_type: "application/connect+json"@ },
                    pid,
                    timeout: limit,
                },
            ),
        ),
{
    law_frame_reads_back(0, payload);
    reveal_with_fuel(scripted::<StartOpView, StartAnswerView, StartView, StartedView, ReplyView>, 5);
    let merged = defaults.env_vars.union_prefer_right(config.envs);
    assert(plan.envs =~= merged) by {
        assert forall|name: Seq<char>| plan.envs.contains_key(name) == #[trigger] merged.contains_key(name) by {}
        assert forall|name: Seq<char>| #[trigger] merged.contains_key(name) implies plan.envs[name]
            == merged[name] by {
            if config.envs.contains_key(name) {
            } else {
                assert(defaults.env_vars.contains_key(name));
            }
        }
    }
}

/// The reply to a request that starts no process.
pub open spec fn not_started(reply: ReplyView, status: u16, message: Seq<char>) -> bool {
    &&& reply.status == status
    &&& reply.content_type == "application/json"@
    &&& reply.body == encode_utf8(error_object("process_error"@, message))
}

/// A body that is no regular frame is refused, and nothing is asked.
pub proof fn law_body_has_to_be_a_frame(
    body: Seq<u8>,
    authorization: Option<Seq<u8>>,
    timeout: Option<Seq<u8>>,
    defaults: DefaultsView,
)
    ensures
        ({
            let step = start_begin(body, authorization, timeout, defaults);
            match frame_content(body) {
                Err(error) => step matches StepOf::Fail(reply) && not_started(reply, 400, frame_error_text(error)),
                Ok((flags, _)) => flags != 0 ==> (step matches StepOf::Fail(reply) && not_started(
                    reply,
                    400,
                    "Process.Start request must be a regular Connect frame"@,
                )),
            }
        }),
{
}

/// A request whose payload, user or time limit is not accepted is refused with the reason, in this order,
/// and nothing is started.
pub proof fn law_refused_requests_are_told_why(
    authorization: Option<Seq<u8>>,
    timeout: Option<Seq<u8>>,
    defaults: DefaultsView,
    config: ProcessConfigView,
    message: Seq<char>,
)
    ensures
        ({
            let start = StartView::Parse { authorization, limit: timeout, defaults };
            let parsed = start_next(start, StartAnswerView::Parsed(config));
            let user = process_user(basic_credentials(authorization), default_user(defaults.user));
            &&& start_next(start, StartAnswerView::Malformed(message)) matches StepOf::Fail(reply) && not_started(
                reply,
                400,
                message,
            )
            &&& user matches Err(reason) ==> (parsed matches StepOf::Fail(reply) && not_started(reply, 400, reason))
            &&& user is Ok ==> (timeout_limit(timeout) matches Err(reason) ==> (parsed matches StepOf::Fail(reply)
                && not_started(reply, 400, reason)))
        }),
{
}

/// A process that cannot be started is told of with the reason.
pub proof fn law_failed_starts_are_told_why(
    config: ProcessConfigView,
    user: Seq<char>,
    limit: Option<u64>,
    defaults: DefaultsView,
    lookup: LookupView,
    message: Seq<char>,
)
    requires
        user != "root"@,
    ensures
        start_next(StartView::Spawn { timeout: limit }, StartAnswerView::NotSpawned(message)) matches StepOf::Fail(reply)
            && not_started(reply, 500, message),
        ({
            let step = start_next(
                StartView::Account { config, user, timeout: limit, defaults },
                StartAnswerView::Account(lookup),
            );
            &&& lookup is Missing ==> (step matches StepOf::Fail(reply) && not_started(
                reply,
                500,
                "user "@ + user + " not found"@,
            ))
            &&& lookup matches LookupOf::Failed(reason) ==> (step matches StepOf::Fail(reply) && not_started(
                reply,
                500,
                "lookup user "@ + user + ": "@ + reason,
            ))
            &&& lookup is Found && encode_utf8(user).contains(0) ==> (step matches StepOf::Fail(reply) && not_started(
                reply,
                500,
                "username contains NUL"@,
            ))
        }),
{
}

} // verus!
