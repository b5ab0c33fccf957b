//! A process while it runs: its output, its time limit, and the account of its end.

use crate::connect::{encode_plain_end, end_payload, frame, END_STREAM};
use crate::outside::{base64_bytes, base64_encode, base64_length, base64_text};
use crate::termination::{
    from_exit_status, legacy_signal_name, plain_end, signal_text, status_end, ExitStatus, TerminationInfo,
    TerminationInfoOf, TerminationView,
};
use crate::text::{copy_bytes, join, optional, signed_decimal, signed_text};
use vstd::prelude::*;
use vstd::slice::*;
use vstd::utf8::*;

verus! {

/// The time between two signs of life, in milliseconds.
pub const KEEPALIVE_MILLIS: u64 = 30000;

/// The most bytes of output that are taken at once.
pub const OUTPUT_CHUNK: usize = 8192;

/// What stands for the exit code of a process that has none.
pub const NO_EXIT_CODE: i32 = -1;

/// The account of the end of a process that its client gets.
#[verifier::ext_equal]
#[derive(Clone, Debug, PartialEq, Eq)]
pub struct EndEventOf<T> {
    pub exit_code: Option<i32>,
    pub exited: bool,
    pub status: T,
    pub error: Option<T>,
    pub termination: TerminationInfoOf<T>,
}

pub type EndEvent = EndEventOf<String>;

pub type EndEventView = EndEventOf<Seq<char>>;

impl View for EndEventOf<String> {
    type V = EndEventOf<Seq<char>>;

    open spec fn view(&self) -> EndEventOf<Seq<char>> {
        EndEventOf {
            exit_code: self.exit_code,
            exited: self.exited,
            status: self.status@,
            error: optional(self.error),
            termination: self.termination@,
        }
    }
}

/// What the client of a process is told: that it was started, what it wrote, in base64, how it ended,
/// or that it still runs.
#[verifier::ext_equal]
#[derive(Clone, Debug, PartialEq, Eq)]
pub enum ProcessEventOf<T> {
    Start { pid: u32 },
    Data { stdout: Option<T>, stderr: Option<T> },
    End(EndEventOf<T>),
    Keepalive,
}

pub type ProcessEvent = ProcessEventOf<String>;

pub type ProcessEventView = ProcessEventOf<Seq<char>>;

impl View for ProcessEventOf<String> {
    type V = ProcessEventOf<Seq<char>>;

    open spec fn view(&self) -> ProcessEventOf<Seq<char>> {
        match self {
            ProcessEventOf::Start { pid } => ProcessEventOf::Start { pid: *pid },
            ProcessEventOf::Data { stdout, stderr } => ProcessEventOf::Data {
                stdout: optional(*stdout),
                stderr: optional(*stderr),
            },
            ProcessEventOf::End(end) => ProcessEventOf::End(end@),
            ProcessEventOf::Keepalive => ProcessEventOf::Keepalive,
        }
    }
}

/// What is told of a process that exited: the code, that it exited, the text for it, and the same text
/// as an error where the code is not zero.
pub open spec fn exit_fields(exit_code: i32) -> (i32, bool, Seq<char>, Option<Seq<char>>) {
    let text = "exit status "@ + signed_text(exit_code as int);
    (
        exit_code,
        true,
        text,
        if exit_code != 0 {
            Some(text)
        } else {
            None
        },
    )
}

/// Tells of a process that exited.
pub fn exit_status_fields(exit_code: i32) -> (fields: (i32, bool, String, Option<String>))
    ensures
        (fields.0, fields.1, fields.2@, optional(fields.3)) == exit_fields(exit_code),
{
    let text: String = join("exit status ", signed_decimal(exit_code).as_str());
    let error: Option<String> = if exit_code != 0 {
        Some(text.clone())
    } else {
        None
    };
    (exit_code, true, text, error)
}

/// What is told of the end of a process.
pub type EndFields = (i32, bool, String, Option<String>, TerminationInfo);

/// The content of `EndFields`.
pub type EndFieldsView = (i32, bool, Seq<char>, Option<Seq<char>>, TerminationView);

/// The content of what is told of an end.
pub open spec fn fields_view(fields: EndFields) -> EndFieldsView {
    (fields.0, fields.1, fields.2@, optional(fields.3), fields.4@)
}

/// What is told of the end that a status tells of. A process that neither exited nor was ended by a
/// signal counts as one that exited with the code -1.
pub open spec fn status_fields(status: ExitStatus, oom_killed: bool) -> EndFieldsView {
    match status.signal {
        Some(signal) => {
            let text = "signal: "@ + signal_text(signal);
            (NO_EXIT_CODE, false, text, Some(text), status_end(status, oom_killed))
        },
        None => {
            let code = match status.code {
                Some(code) => code,
                None => NO_EXIT_CODE,
            };
            let (exit_code, exited, text, error) = exit_fields(code);
            (exit_code, exited, text, error, status_end(status, false))
        },
    }
}

/// Tells of the end that a status tells of.
pub fn end_event_fields(status: ExitStatus, oom_killed: bool) -> (fields: EndFields)
    ensures
        fields_view(fields) == status_fields(status, oom_killed),
{
    match status.signal {
        Some(signal) => {
            let text: String = join("signal: ", legacy_signal_name(signal).as_str());
            (NO_EXIT_CODE, false, text.clone(), Some(text), from_exit_status(status, oom_killed))
        },
        None => {
            let code: i32 = match status.code {
                Some(code) => code,
                None => NO_EXIT_CODE,
            };
            let (exit_code, exited, text, error) = exit_status_fields(code);
            (exit_code, exited, text, error, from_exit_status(status, false))
        },
    }
}

/// How waiting for a process ended: with its status, or with a failure of the host.
#[verifier::ext_equal]
#[derive(Clone, Debug, PartialEq, Eq)]
pub enum EndingOf<T> {
    Status(ExitStatus),
    Failed(T),
}

pub type Ending = EndingOf<String>;

impl View for EndingOf<String> {
    type V = EndingOf<Seq<char>>;

    open spec fn view(&self) -> EndingOf<Seq<char>> {
        match self {
            EndingOf::Status(status) => EndingOf::Status(*status),
            EndingOf::Failed(message) => EndingOf::Failed(message@),
        }
    }
}

/// Something that happens while a process runs: waiting for it ended; it wrote to one of its outputs;
/// one of its outputs is closed; its time is up; or it is time for a sign of life.
#[verifier::ext_equal]
#[derive(Clone, Debug, PartialEq, Eq)]
pub enum RunEventOf<B, T> {
    Ended(EndingOf<T>),
    Stdout(B),
    Stderr(B),
    ReaderDone,
    Deadline,
    Tick,
}

pub type RunEvent = RunEventOf<Vec<u8>, String>;

pub type RunEventView = RunEventOf<Seq<u8>, Seq<char>>;

impl View for RunEventOf<Vec<u8>, String> {
    type V = RunEventOf<Seq<u8>, Seq<char>>;

    open spec fn view(&self) -> RunEventOf<Seq<u8>, Seq<char>> {
        match self {
            RunEventOf::Ended(ending) => RunEventOf::Ended(ending@),
            RunEventOf::Stdout(data) => RunEventOf::Stdout(data@),
            RunEventOf::Stderr(data) => RunEventOf::Stderr(data@),
            RunEventOf::ReaderDone => RunEventOf::ReaderDone,
            RunEventOf::Deadline => RunEventOf::Deadline,
            RunEventOf::Tick => RunEventOf::Tick,
        }
    }
}

/// What one reading of an output brought: so many bytes, or nothing more.
pub open spec fn read_result(stdout: bool, buffer: Seq<u8>, size: Option<usize>) -> RunEventView {
    match size {
        Some(size) => if size == 0 {
            RunEventOf::ReaderDone
        } else if stdout {
            RunEventOf::Stdout(buffer.take(size as int))
        } else {
            RunEventOf::Stderr(buffer.take(size as int))
        },
        None => RunEventOf::ReaderDone,
    }
}

/// Turns one reading of an output into an event, given how many bytes of the buffer it filled, or
/// nothing where it failed. The output is closed after an empty or a failed reading.
pub fn read_event(stdout: bool, buffer: &[u8], size: Option<usize>) -> (event: RunEvent)
    requires
        size is Some ==> size->0 <= buffer@.len(),
    ensures
        event@ == read_result(stdout, buffer@, size),
{
    match size {
        Some(size) => {
            if size == 0 {
                return RunEventOf::ReaderDone;
            }
            let filled = slice_subrange(buffer, 0, size);
            assert(filled@ =~= buffer@.take(size as int));
            if stdout {
                RunEventOf::Stdout(copy_bytes(filled))
            } else {
                RunEventOf::Stderr(copy_bytes(filled))
            }
        },
        None => RunEventOf::ReaderDone,
    }
}

/// What is to be done after an event.
#[verifier::ext_equal]
#[derive(Clone, Debug, PartialEq, Eq)]
pub enum ActionOf<T> {
    Nothing,
    Send(ProcessEventOf<T>),
    Kill,
}

pub type Action = ActionOf<String>;

pub type ActionView = ActionOf<Seq<char>>;

impl View for ActionOf<String> {
    type V = ActionOf<Seq<char>>;

    open spec fn view(&self) -> ActionOf<Seq<char>> {
        match self {
            ActionOf::Nothing => ActionOf::Nothing,
            ActionOf::Send(event) => ActionOf::Send(event@),
            ActionOf::Kill => ActionOf::Kill,
        }
    }
}

/// A process that runs: whether it has a time limit and whether that was exceeded, how many of its
/// two outputs are closed, and how waiting for it ended, once it has.
#[verifier::ext_equal]
#[derive(Debug, PartialEq, Eq)]
pub struct RunOf<T> {
    pub limited: bool,
    pub timed_out: bool,
    pub readers_done: u8,
    pub ending: Option<EndingOf<T>>,
}

pub type Run = RunOf<String>;

pub type RunView = RunOf<Seq<char>>;

impl View for RunOf<String> {
    type V = RunOf<Seq<char>>;

    open spec fn view(&self) -> RunOf<Seq<char>> {
        RunOf {
            limited: self.limited,
            timed_out: self.timed_out,
            readers_done: self.readers_done,
            ending: match self.ending {
                Some(ending) => Some(ending@),
                None => None,
            },
        }
    }
}

/// A process that was just started.
pub open spec fn run_start(limited: bool) -> RunView {
    RunOf { limited, timed_out: false, readers_done: 0, ending: None }
}

/// The first message of the stream of a process: that it was started.
pub open spec fn opening_event(pid: u32) -> ProcessEventView {
    ProcessEventOf::Start { pid }
}

/// Whether an event is waited for. The end, the time limit and the signs of life count while waiting
/// for the process has not ended; the outputs count until both are closed, also after the process has
/// ended.
pub open spec fn awaited(run: RunView, event: RunEventView) -> bool {
    match event {
        RunEventOf::Ended(_) => run.ending is None,
        RunEventOf::Stdout(_) => run.readers_done < 2,
        RunEventOf::Stderr(_) => run.readers_done < 2,
        RunEventOf::ReaderDone => run.readers_done < 2,
        RunEventOf::Deadline => run.limited && run.ending is None && !run.timed_out,
        RunEventOf::Tick => run.ending is None,
    }
}

/// What the client is told of what a process wrote.
pub open spec fn data_event(stdout: bool, data: Seq<u8>) -> ProcessEventView {
    let text = base64_text(data);
    if stdout {
        ProcessEventOf::Data { stdout: Some(text), stderr: None }
    } else {
        ProcessEventOf::Data { stdout: None, stderr: Some(text) }
    }
}

/// What an event leads to. An event that is not waited for has no effect.
pub open spec fn run_next(run: RunView, event: RunEventView) -> (RunView, ActionView) {
    if !awaited(run, event) {
        (run, ActionOf::Nothing)
    } else {
        match event {
            RunEventOf::Ended(ending) => (RunOf { ending: Some(ending), ..run }, ActionOf::Nothing),
            RunEventOf::Stdout(data) => (run, ActionOf::Send(data_event(true, data))),
            RunEventOf::Stderr(data) => (run, ActionOf::Send(data_event(false, data))),
            RunEventOf::ReaderDone => (
                RunOf { readers_done: (run.readers_done + 1) as u8, ..run },
                ActionOf::Nothing,
            ),
            RunEventOf::Deadline => (RunOf { timed_out: true, ..run }, ActionOf::Kill),
            RunEventOf::Tick => (run, ActionOf::Send(ProcessEventOf::Keepalive)),
        }
    }
}

/// Nothing more can happen: waiting for the process has ended, and both outputs are closed.
pub open spec fn finished(run: RunView) -> bool {
    run.ending is Some && run.readers_done >= 2
}

/// What is told of the end of a run.
pub open spec fn ending_fields(ending: Option<EndingOf<Seq<char>>>, oom_killed: bool) -> EndFieldsView {
    match ending {
        Some(EndingOf::Status(status)) => status_fields(status, oom_killed),
        Some(EndingOf::Failed(message)) => (NO_EXIT_CODE, false, message, Some(message), plain_end("unknown"@)),
        None => {
            let message = "process did not return an exit status"@;
            (NO_EXIT_CODE, false, message, Some(message), plain_end("unknown"@))
        },
    }
}

/// The account of the end of a run. Where the time limit was exceeded, that is the error and the
/// reason, and there is no exit code.
pub open spec fn run_end(run: RunView, oom_killed: bool) -> EndEventView {
    let (exit_code, exited, status, error, termination) = ending_fields(run.ending, oom_killed);
    if run.timed_out {
        EndEventOf {
            exit_code: None,
            exited: false,
            status,
            error: Some("process timed out"@),
            termination: plain_end("timeout"@),
        }
    } else {
        EndEventOf { exit_code: Some(exit_code), exited, status, error, termination }
    }
}

/// What ends the stream of a process: the last message, and the frame behind it that ends the stream.
#[verifier::ext_equal]
#[derive(Clone, Debug, PartialEq, Eq)]
pub struct ClosingOf<B, T> {
    pub end: ProcessEventOf<T>,
    pub frame: B,
}

pub type Closing = ClosingOf<Vec<u8>, String>;

pub type ClosingView = ClosingOf<Seq<u8>, Seq<char>>;

impl View for ClosingOf<Vec<u8>, String> {
    type V = ClosingOf<Seq<u8>, Seq<char>>;

    open spec fn view(&self) -> ClosingOf<Seq<u8>, Seq<char>> {
        ClosingOf { end: self.end@, frame: self.frame@ }
    }
}

/// What ends the stream of a run: the account of the end, and a last frame without an error.
pub open spec fn run_closing(run: RunView, oom_killed: bool) -> ClosingView {
    ClosingOf { end: ProcessEventOf::End(run_end(run, oom_killed)), frame: frame(END_STREAM, end_payload(None)) }
}

/// The data of an event is short enough to be encoded.
pub open spec fn encodable(event: RunEventView) -> bool {
    match event {
        RunEventOf::Stdout(data) => base64_length(data.len()) <= isize::MAX,
        RunEventOf::Stderr(data) => base64_length(data.len()) <= isize::MAX,
        _ => true,
    }
}

/// What a data event tells decodes to these bytes.
pub open spec fn carries(action: ActionView, stdout: bool, data: Seq<u8>) -> bool {
    match action {
        ActionOf::Send(ProcessEventOf::Data { stdout: Some(text), stderr: None }) => stdout && base64_bytes(
            encode_utf8(text),
        ) == Some(data),
        ActionOf::Send(ProcessEventOf::Data { stdout: None, stderr: Some(text) }) => !stdout && base64_bytes(
            encode_utf8(text),
        ) == Some(data),
        _ => false,
    }
}

/// Tells the client what a process wrote. The text decodes to the same bytes again.
pub fn send_output(stdout: bool, data: &[u8]) -> (action: Action)
    requires
        base64_length(data@.len()) <= isize::MAX,
    ensures
        action@ == ActionView::Send(data_event(stdout, data@)),
        carries(action@, stdout, data@),
{
    let text: String = base64_encode(data);
    if stdout {
        ActionOf::Send(ProcessEventOf::Data { stdout: Some(text), stderr: None })
    } else {
        ActionOf::Send(ProcessEventOf::Data { stdout: None, stderr: Some(text) })
    }
}

impl RunOf<String> {
    /// A process that was just started, with or without a time limit, and the first message of its stream.
    pub fn open(pid: u32, limited: bool) -> (opening: (Run, ProcessEvent))
        ensures
            opening.0@ == run_start(limited),
            opening.1@ == (ProcessEventView::Start { pid }),
            opening.1@ == opening_event(pid),
    {
        (
            RunOf { limited, timed_out: false, readers_done: 0, ending: None },
            ProcessEventOf::Start { pid },
        )
    }

    /// Whether the end of the process is waited for, and with it signs of life.
    pub fn awaits_end(&self) -> (awaits: bool)
        ensures
            awaits == (self@.ending is None),
    {
        self.ending.is_none()
    }

    /// Whether the outputs are waited for.
    pub fn awaits_output(&self) -> (awaits: bool)
        ensures
            awaits == awaited(self@, RunEventOf::ReaderDone),
    {
        self.readers_done < 2
    }

    /// Whether the time limit is waited for.
    pub fn awaits_deadline(&self) -> (awaits: bool)
        ensures
            awaits == awaited(self@, RunEventOf::Deadline),
    {
        self.limited && self.ending.is_none() && !self.timed_out
    }

    /// Whether nothing more can happen.
    pub fn is_finished(&self) -> (done: bool)
        ensures
            done == finished(self@),
    {
        self.ending.is_some() && self.readers_done >= 2
    }

    /// Goes on with an event and says what is to be done.
    pub fn step(&mut self, event: RunEvent) -> (action: Action)
        requires
            encodable(event@),
        ensures
            (final(self)@, action@) == run_next(old(self)@, event@),
            event@ matches RunEventOf::Stdout(data) ==> awaited(old(self)@, event@) ==> carries(action@, true, data),
            event@ matches RunEventOf::Stderr(data) ==> awaited(old(self)@, event@) ==> carries(action@, false, data),
    {
        match event {
            RunEventOf::Ended(ending) => {
                if self.ending.is_none() {
                    self.ending = Some(ending);
                }
                ActionOf::Nothing
            },
            RunEventOf::Stdout(data) => if self.readers_done < 2 {
                send_output(true, &data)
            } else {
                ActionOf::Nothing
            },
            RunEventOf::Stderr(data) => if self.readers_done < 2 {
                send_output(false, &data)
            } else {
                ActionOf::Nothing
            },
            RunEventOf::ReaderDone => {
                if self.readers_done < 2 {
                    self.readers_done = self.readers_done + 1;
                }
                ActionOf::Nothing
            },
            RunEventOf::Deadline => if self.awaits_deadline() {
                self.timed_out = true;
                ActionOf::Kill
            } else {
                ActionOf::Nothing
            },
            RunEventOf::Tick => if self.ending.is_none() {
                ActionOf::Send(ProcessEventOf::Keepalive)
            } else {
                ActionOf::Nothing
            },
        }
    }

    /// Gives the account of the end, given whether processes were killed for want of memory in the
    /// meantime.
    fn end_event(self, oom_killed: bool) -> (end: EndEvent)
        ensures
            end@ == run_end(self@, oom_killed),
    {
        let (exit_code, exited, status, error, termination): EndFields = match self.ending {
            Some(EndingOf::Status(status)) => end_event_fields(status, oom_killed),
            Some(EndingOf::Failed(message)) => {
                (NO_EXIT_CODE, false, message.clone(), Some(message), TerminationInfoOf::unknown())
            },
            None => {
                let message: String = "process did not return an exit status".to_owned();
                (NO_EXIT_CODE, false, message.clone(), Some(message), TerminationInfoOf::unknown())
            },
        };
        if self.timed_out {
            EndEventOf {
                exit_code: None,
                exited: false,
                status,
                error: Some("process timed out".to_owned()),
                termination: TerminationInfoOf::timeout(),
            }
        } else {
            EndEventOf { exit_code: Some(exit_code), exited, status, error, termination }
        }
    }

    /// Ends the stream of a process once nothing more can happen, given whether processes were killed for
    /// want of memory in the meantime. Otherwise the run goes on.
    pub fn close(self, oom_killed: bool) -> (closing: Result<Closing, Run>)
        ensures
            match closing {
                Ok(closing) => finished(self@) && closing@ == run_closing(self@, oom_killed),
                Err(run) => !finished(self@) && run == self,
            },
    {
        if !self.is_finished() {
            return Err(self);
        }
        let end: ProcessEvent = ProcessEventOf::End(self.end_event(oom_killed));
        Ok(ClosingOf { end, frame: encode_plain_end() })
    }
}

/// A run after events, one after the other.
pub open spec fn run_after(run: RunView, events: Seq<RunEventView>) -> RunView
    decreases events.len(),
{
    if events.len() == 0 {
        run
    } else {
        run_after(run_next(run, events[0]).0, events.skip(1))
    }
}

/// What is done for events, one after the other.
pub open spec fn actions_for(run: RunView, events: Seq<RunEventView>) -> Seq<ActionView>
    decreases events.len(),
{
    if events.len() == 0 {
        Seq::empty()
    } else {
        let (next, action) = run_next(run, events[0]);
        seq![action] + actions_for(next, events.skip(1))
    }
}

/// While a process runs, neither its start nor its end is told: the one comes before, the other after.
pub proof fn law_no_end_is_told_while_running(run: RunView, events: Seq<RunEventView>)
    ensures
        forall|i: int|
            0 <= i < actions_for(run, events).len() ==> {
                &&& !(#[trigger] actions_for(run, events)[i] matches ActionOf::Send(ProcessEventOf::End(_)))
                &&& !(actions_for(run, events)[i] matches ActionOf::Send(ProcessEventOf::Start { .. }))
            },
    decreases events.len(),
{
    if events.len() > 0 {
        let (next, action) = run_next(run, events[0]);
        let rest = actions_for(next, events.skip(1));
        law_no_end_is_told_while_running(next, events.skip(1));
        assert forall|i: int| 0 <= i < actions_for(run, events).len() implies {
            &&& !(#[trigger] actions_for(run, events)[i] matches ActionOf::Send(ProcessEventOf::End(_)))
            &&& !(actions_for(run, events)[i] matches ActionOf::Send(ProcessEventOf::Start { .. }))
        } by {
            if i > 0 {
                assert(actions_for(run, events)[i] == rest[i - 1]);
            }
        }
    }
}

/// Once nothing more can happen, nothing does: no event has an effect any more.
pub proof fn law_finished_run_is_final(run: RunView, event: RunEventView)
    requires
        finished(run),
    ensures
        run_next(run, event) == (run, ActionView::Nothing),
{
}

/// So many of the actions kill the process.
pub open spec fn kills(actions: Seq<ActionView>) -> nat
    decreases actions.len(),
{
    if actions.len() == 0 {
        0
    } else {
        kills(actions.skip(1)) + if actions[0] is Kill {
            1nat
        } else {
            0nat
        }
    }
}

/// A process is killed at most once, and not at all without a time limit. It was killed exactly when
/// its time limit counts as exceeded.
pub proof fn law_killed_at_most_once(run: RunView, events: Seq<RunEventView>)
    ensures
        ({
            let killed = kills(actions_for(run, events));
            &&& killed <= 1
            &&& !run.limited || run.timed_out ==> killed == 0
            &&& !run.timed_out ==> (killed == 1 <==> run_after(run, events).timed_out)
        }),
    decreases events.len(),
{
    if events.len() > 0 {
        let (next, action) = run_next(run, events[0]);
        law_killed_at_most_once(next, events.skip(1));
        let all = actions_for(run, events);
        assert(all.skip(1) =~= actions_for(next, events.skip(1)));
        lemma_timeout_is_kept(next, events.skip(1));
    }
}

/// A time limit that was exceeded stays exceeded.
proof fn lemma_timeout_is_kept(run: RunView, events: Seq<RunEventView>)
    ensures
        run.timed_out ==> run_after(run, events).timed_out,
    decreases events.len(),
{
    if events.len() > 0 {
        lemma_timeout_is_kept(run_next(run, events[0]).0, events.skip(1));
    }
}

/// No output comes after both outputs are closed.
pub open spec fn orderly(closed: nat, events: Seq<RunEventView>) -> bool
    decreases events.len(),
{
    if events.len() == 0 {
        true
    } else {
        match events[0] {
            RunEventOf::Stdout(_) => closed < 2 && orderly(closed, events.skip(1)),
            RunEventOf::Stderr(_) => closed < 2 && orderly(closed, events.skip(1)),
            RunEventOf::ReaderDone => orderly(closed + 1, events.skip(1)),
            _ => orderly(closed, events.skip(1)),
        }
    }
}

/// What the process wrote, as the client is to be told of it.
pub open spec fn written(events: Seq<RunEventView>) -> Seq<ProcessEventView>
    decreases events.len(),
{
    if events.len() == 0 {
        Seq::empty()
    } else {
        let rest = written(events.skip(1));
        match events[0] {
            RunEventOf::Stdout(data) => seq![data_event(true, data)] + rest,
            RunEventOf::Stderr(data) => seq![data_event(false, data)] + rest,
            _ => rest,
        }
    }
}

/// What the client is told of what the process wrote.
pub open spec fn told(actions: Seq<ActionView>) -> Seq<ProcessEventView>
    decreases actions.len(),
{
    if actions.len() == 0 {
        Seq::empty()
    } else {
        let rest = told(actions.skip(1));
        match actions[0] {
            ActionOf::Send(ProcessEventOf::Data { stdout, stderr }) => {
                seq![ProcessEventOf::Data { stdout, stderr }] + rest
            },
            _ => rest,
        }
    }
}

/// The client is told of all output, and of nothing else, in the order in which it was read, whether
/// the process still runs or not.
pub proof fn law_all_output_is_told(run: RunView, events: Seq<RunEventView>)
    requires
        orderly(run.readers_done as nat, events),
    ensures
        told(actions_for(run, events)) == written(events),
    decreases events.len(),
{
    if events.len() > 0 {
        let (next, action) = run_next(run, events[0]);
        let all = actions_for(run, events);
        assert(all.skip(1) =~= actions_for(next, events.skip(1)));
        if events[0] is ReaderDone && run.readers_done >= 2 {
            lemma_orderly_after_close(run.readers_done as nat, run.readers_done as nat + 1, events.skip(1));
        }
        law_all_output_is_told(next, events.skip(1));
    }
}

/// How many outputs are closed does not matter once both are.
proof fn lemma_orderly_after_close(closed: nat, more: nat, events: Seq<RunEventView>)
    requires
        closed >= 2,
        more >= 2,
        orderly(more, events),
    ensures
        orderly(closed, events),
    decreases events.len(),
{
    if events.len() > 0 {
        if events[0] is ReaderDone {
            lemma_orderly_after_close(closed + 1, more + 1, events.skip(1));
        } else {
            lemma_orderly_after_close(closed, more, events.skip(1));
        }
    }
}

/// A process whose time limit was exceeded is told of as such, whatever its status: no exit code, not
/// exited, and the time limit as the error and the reason. Its status text is still that of its end.
pub proof fn law_timeout_is_reported(run: RunView, oom_killed: bool)
    requires
        run.timed_out,
    ensures
        ({
            let end = run_end(run, oom_killed);
            &&& end.exit_code is None
            &&& !end.exited
            &&& end.error == Some("process timed out"@)
            &&& end.termination == plain_end("timeout"@)
            &&& end.status == ending_fields(run.ending, oom_killed).2
        }),
{
}

/// A process that exited in time is told of with its code, and with an error exactly where the code is
/// not zero.
pub proof fn law_exit_code_is_reported(run: RunView, code: i32, core_dumped: bool, oom_killed: bool)
    requires
        !run.timed_out,
        run.ending == Some(
            EndingOf::<Seq<char>>::Status(ExitStatus { signal: None, code: Some(code), core_dumped }),
        ),
    ensures
        ({
            let end = run_end(run, oom_killed);
            &&& end.exit_code == Some(code)
            &&& end.exited
            &&& end.error is None <==> code == 0
            &&& end.termination == plain_end("exited"@)
        }),
{
}

/// Signs of life are given while the process is waited for, and only then.
pub proof fn law_signs_of_life_end_with_the_process(run: RunView)
    ensures
        run_next(run, RunEventOf::Tick).1 == ActionView::Send(ProcessEventOf::Keepalive) <==> run.ending is None,
{
}

/// The reason of an end is one of five, whatever happened. It is the time limit exactly where that was
/// exceeded.
pub proof fn law_reason_is_one_of_five(run: RunView, oom_killed: bool)
    ensures
        ({
            let reason = run_end(run, oom_killed).termination.reason;
            &&& reason == "exited"@ || reason == "signal"@ || reason == "timeout"@ || reason == "oom"@ || reason
                == "unknown"@
            &&& reason == "timeout"@ <==> run.timed_out
        }),
{
    reveal_strlit("exited");
    reveal_strlit("signal");
    reveal_strlit("timeout");
    reveal_strlit("oom");
    reveal_strlit("unknown");
    assert("exited"@[0] == 'e' && "signal"@[0] == 's' && "timeout"@[0] == 't' && "oom"@[0] == 'o' && "unknown"@[0]
        == 'u');
}

/// One item of the stream that the client of a process gets: a message, or a frame as it is.
#[verifier::ext_equal]
pub enum ItemView {
    Message(ProcessEventView),
    Frame(Seq<u8>),
}

/// The messages among actions.
pub open spec fn messages(actions: Seq<ActionView>) -> Seq<ItemView>
    decreases actions.len(),
{
    if actions.len() == 0 {
        Seq::empty()
    } else {
        let rest = messages(actions.skip(1));
        match actions[0] {
            ActionOf::Send(event) => seq![ItemView::Message(event)] + rest,
            _ => rest,
        }
    }
}

/// All that the client of a process gets, from the opening over the events to the closing.
pub open spec fn process_stream(pid: u32, limited: bool, events: Seq<RunEventView>, oom_killed: bool) -> Seq<ItemView> {
    let start = run_start(limited);
    let closing = run_closing(run_after(start, events), oom_killed);
    seq![ItemView::Message(opening_event(pid))] + messages(actions_for(start, events))
        + seq![ItemView::Message(closing.end), ItemView::Frame(closing.frame)]
}

/// Neither the start nor the end nor the end of the stream is among the messages of a run.
proof fn lemma_messages_are_inner(run: RunView, events: Seq<RunEventView>)
    ensures
        forall|i: int|
            0 <= i < messages(actions_for(run, events)).len() ==> is_inner(
                #[trigger] messages(actions_for(run, events))[i],
            ),
    decreases events.len(),
{
    if events.len() > 0 {
        let (next, action) = run_next(run, events[0]);
        let all = actions_for(run, events);
        let rest = actions_for(next, events.skip(1));
        lemma_messages_are_inner(next, events.skip(1));
        assert(all.skip(1) =~= rest);
        assert forall|i: int| 0 <= i < messages(all).len() implies is_inner(#[trigger] messages(all)[i]) by {
            if action is Send {
                if i > 0 {
                    assert(messages(all)[i] == messages(rest)[i - 1]);
                }
            } else {
                assert(messages(all)[i] == messages(rest)[i]);
            }
        }
    }
}

/// A message between the opening and the closing: output, or a sign of life.
pub open spec fn is_inner(item: ItemView) -> bool {
    item matches ItemView::Message(event) && (event is Data || event is Keepalive)
}

/// The stream of a process is its start, then output and signs of life alone, then its end, then the
/// frame that ends the stream: the start is first and comes once, and the end comes once, directly before
/// the one frame that ends the stream, which is last.
pub proof fn law_stream_is_start_output_end(pid: u32, limited: bool, events: Seq<RunEventView>, oom_killed: bool)
    ensures
        ({
            let stream = process_stream(pid, limited, events, oom_killed);
            let last = run_after(run_start(limited), events);
            &&& stream.len() >= 3
            &&& stream[0] == ItemView::Message(ProcessEventOf::Start { pid })
            &&& forall|i: int| 0 < i < stream.len() - 2 ==> is_inner(#[trigger] stream[i])
            &&& stream[stream.len() - 2] == ItemView::Message(ProcessEventOf::End(run_end(last, oom_killed)))
            &&& stream[stream.len() - 1] == ItemView::Frame(frame(END_STREAM, end_payload(None)))
        }),
{
    let start = run_start(limited);
    let inner = messages(actions_for(start, events));
    let stream = process_stream(pid, limited, events, oom_killed);
    lemma_messages_are_inner(start, events);
    assert forall|i: int| 0 < i < stream.len() - 2 implies is_inner(#[trigger] stream[i]) by {
        assert(stream[i] == inner[i - 1]);
    }
}

} // verus!
