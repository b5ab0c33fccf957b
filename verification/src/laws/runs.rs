//! What the client of a process is told while it runs and when it ends.

use crate::connect::frame;
use crate::laws::texts::law_first_place_is_the_first;
use crate::outside::base64_text;
use crate::running::{
    finished, opening_event, read_result, run_closing, run_end, run_next, run_start, ActionView, EndingOf,
    ProcessEventOf, ProcessEventView, RunEventOf, RunOf, RunView, KEEPALIVE_MILLIS, OUTPUT_CHUNK,
};
use crate::termination::{
    memory_ran_out, oom_counter, oom_key, picked_counter, signal_constant, signal_description, signal_text,
    ExitStatus, TerminationView,
};
use crate::text::{first_place, signed_text, u64_value};
use vstd::prelude::*;
use vstd::utf8::*;

verus! {

/// What a process writes is told at once, all of it, in base64, as what it is: what it wrote to its standard
/// output as that, and what it wrote to its standard error as that. Nothing else changes by it. Once both
/// are closed nothing more can come.
pub proof fn law_output_is_told_as_what_it_is(run: RunView, data: Seq<u8>)
    ensures
        run.readers_done < 2 ==> {
            &&& run_next(run, RunEventOf::Stdout(data)) == (
                run,
                ActionView::Send(ProcessEventOf::Data { stdout: Some(base64_text(data)), stderr: None }),
            )
            &&& run_next(run, RunEventOf::Stderr(data)) == (
                run,
                ActionView::Send(ProcessEventOf::Data { stdout: None, stderr: Some(base64_text(data)) }),
            )
        },
        run.readers_done >= 2 ==> {
            &&& run_next(run, RunEventOf::Stdout(data)) == (run, ActionView::Nothing)
            &&& run_next(run, RunEventOf::Stderr(data)) == (run, ActionView::Nothing)
        },
{
}

/// What one reading of an output brought is what it put into the buffer, and no more; an empty or a failed
/// reading closes the output.
pub proof fn law_reading_brings_what_was_read(stdout: bool, buffer: Seq<u8>, size: usize)
    requires
        size <= buffer.len(),
    ensures
        read_result(stdout, buffer, None) is ReaderDone,
        read_result(stdout, buffer, Some(0)) is ReaderDone,
        size > 0 ==> {
            let event = read_result(stdout, buffer, Some(size));
            let data = if stdout {
                event->Stdout_0
            } else {
                event->Stderr_0
            };
            &&& event is Stdout <==> stdout
            &&& event is Stderr <==> !stdout
            &&& data.len() == size
            &&& forall|i: int| 0 <= i < size ==> #[trigger] data[i] == buffer[i]
        },
{
}

/// A process that was just started has not ended, both its outputs are open, and its time is not up.
pub proof fn law_process_starts_open(limited: bool)
    ensures
        ({
            let run = run_start(limited);
            &&& run.limited == limited
            &&& !run.timed_out
            &&& run.readers_done == 0
            &&& run.ending is None
            &&& !finished(run)
        }),
{
}

/// The first end of a process counts, and changes nothing else; a later one has no effect.
pub proof fn law_first_end_counts(run: RunView, ending: EndingOf<Seq<char>>)
    ensures
        run.ending is None ==> run_next(run, RunEventOf::Ended(ending)) == (
            RunOf { ending: Some(ending), ..run },
            ActionView::Nothing,
        ),
        run.ending is Some ==> run_next(run, RunEventOf::Ended(ending)) == (run, ActionView::Nothing),
{
}

/// A process is killed when its time is up: where it has a limit, has not ended, and was not killed before.
/// That its time was up is kept.
pub proof fn law_killed_when_time_is_up(run: RunView)
    ensures
        ({
            let (next, action) = run_next(run, RunEventOf::Deadline);
            &&& action is Kill <==> run.limited && run.ending is None && !run.timed_out
            &&& action is Kill || action is Nothing
            &&& next == (RunOf { timed_out: run.timed_out || action is Kill, ..run })
        }),
{
}

/// A sign of life is given while the process has not ended, and nothing changes by it.
pub proof fn law_sign_of_life_while_running(run: RunView)
    ensures
        run_next(run, RunEventOf::Tick) == (
            run,
            if run.ending is None {
                ActionView::Send(ProcessEventOf::Keepalive)
            } else {
                ActionView::Nothing
            },
        ),
{
}

/// A run is over once the process has ended and two outputs are closed, and not before.
pub proof fn law_run_is_over_when_all_is_closed(run: RunView)
    ensures
        finished(run) <==> run.ending is Some && run.readers_done >= 2,
        run.readers_done < 2 ==> run_next(run, RunEventOf::ReaderDone) == (
            RunOf { readers_done: (run.readers_done + 1) as u8, ..run },
            ActionView::Nothing,
        ),
        run.readers_done >= 2 ==> run_next(run, RunEventOf::ReaderDone) == (run, ActionView::Nothing),
{
}

/// The account of an end that has nothing to tell but its reason.
pub open spec fn only_reason(end: TerminationView, reason: Seq<char>) -> bool {
    end.reason == reason && end.signal is None && end.signal_name is None && !end.core_dumped
}

/// A process that exited in time is told of with its code and that it exited, in words too, which are an
/// error where the code is not zero. One without a code counts as one with the code -1.
pub proof fn law_exit_is_told(run: RunView, code: Option<i32>, core_dumped: bool, oom_killed: bool)
    requires
        !run.timed_out,
        run.ending == Some(EndingOf::<Seq<char>>::Status(ExitStatus { signal: None, code, core_dumped })),
    ensures
        ({
            let end = run_end(run, oom_killed);
            let told: int = match code {
                Some(code) => code as int,
                None => -1,
            };
            let words = "exit status "@ + signed_text(told);
            &&& end.exit_code matches Some(exit_code) && exit_code == told
            &&& end.exited
            &&& end.status == words
            &&& end.error == if told == 0 {
                None
            } else {
                Some(words)
            }
            &&& only_reason(end.termination, "exited"@)
        }),
{
}

/// A process that a signal ended in time is told of with the signal, its name, whether it left a core dump,
/// and the words for it, which are the error; it did not exit. Where memory ran out meanwhile, that is the
/// reason.
pub proof fn law_signal_is_told(run: RunView, signal: i32, code: Option<i32>, core_dumped: bool, oom_killed: bool)
    requires
        !run.timed_out,
        run.ending == Some(
            EndingOf::<Seq<char>>::Status(ExitStatus { signal: Some(signal), code, core_dumped }),
        ),
    ensures
        ({
            let end = run_end(run, oom_killed);
            let words = "signal: "@ + signal_text(signal);
            &&& end.exit_code matches Some(exit_code) && exit_code == -1
            &&& !end.exited
            &&& end.status == words
            &&& end.error == Some(words)
            &&& end.termination.reason == if oom_killed {
                "oom"@
            } else {
                "signal"@
            }
            &&& end.termination.signal == Some(signal)
            &&& end.termination.signal_name == signal_constant(signal)
            &&& end.termination.core_dumped == core_dumped
        }),
{
}

/// A process that could not be waited for is told of with the reason for that.
pub proof fn law_failed_wait_is_told(run: RunView, message: Seq<char>, oom_killed: bool)
    requires
        !run.timed_out,
        run.ending == Some(EndingOf::<Seq<char>>::Failed(message)),
    ensures
        ({
            let end = run_end(run, oom_killed);
            &&& end.exit_code matches Some(exit_code) && exit_code == -1
            &&& !end.exited
            &&& end.status == message
            &&& end.error == Some(message)
            &&& only_reason(end.termination, "unknown"@)
        }),
{
}

/// A process whose time was up is told of as such, whatever else is known of its end; only the words for
/// that end are told as they are otherwise.
pub proof fn law_time_limit_is_told(run: RunView, oom_killed: bool)
    requires
        run.timed_out,
    ensures
        ({
            let end = run_end(run, oom_killed);
            &&& end.exit_code is None
            &&& !end.exited
            &&& end.error == Some("process timed out"@)
            &&& only_reason(end.termination, "timeout"@)
            &&& end.status == run_end(RunOf { timed_out: false, ..run }, oom_killed).status
        }),
{
}

/// A stream ends with the account of the end, and then with an empty object in a frame that is marked as the
/// last.
pub proof fn law_stream_is_closed(run: RunView, oom_killed: bool)
    ensures
        run_closing(run, oom_killed).end == ProcessEventView::End(run_end(run, oom_killed)),
        run_closing(run, oom_killed).frame == frame(2, encode_utf8("{}"@)),
{
}

/// Signals from 1 to 31 have a name and a description, and no others have; these are told by their number.
pub proof fn law_signals_have_names(signal: i32)
    ensures
        signal_constant(signal) is Some <==> 1 <= signal <= 31,
        signal_description(signal) is Some <==> 1 <= signal <= 31,
        !(1 <= signal <= 31) ==> signal_text(signal) == "signal "@ + signed_text(signal as int),
        signal == 1 ==> signal_constant(signal) == Some("SIGHUP"@) && signal_text(signal) == "hangup"@,
        signal == 2 ==> signal_constant(signal) == Some("SIGINT"@) && signal_text(signal) == "interrupt"@,
        signal == 3 ==> signal_constant(signal) == Some("SIGQUIT"@) && signal_text(signal) == "quit"@,
        signal == 4 ==> signal_constant(signal) == Some("SIGILL"@) && signal_text(signal) == "illegal instruction"@,
        signal == 5 ==> signal_constant(signal) == Some("SIGTRAP"@) && signal_text(signal) == "trace/breakpoint trap"@,
        signal == 6 ==> signal_constant(signal) == Some("SIGABRT"@) && signal_text(signal) == "aborted"@,
        signal == 7 ==> signal_constant(signal) == Some("SIGBUS"@) && signal_text(signal) == "bus error"@,
        signal == 8 ==> signal_constant(signal) == Some("SIGFPE"@) && signal_text(signal) == "floating point exception"@,
        signal == 9 ==> signal_constant(signal) == Some("SIGKILL"@) && signal_text(signal) == "killed"@,
        signal == 10 ==> signal_constant(signal) == Some("SIGUSR1"@) && signal_text(signal) == "user defined signal 1"@,
        signal == 11 ==> signal_constant(signal) == Some("SIGSEGV"@) && signal_text(signal) == "segmentation fault"@,
        signal == 12 ==> signal_constant(signal) == Some("SIGUSR2"@) && signal_text(signal) == "user defined signal 2"@,
        signal == 13 ==> signal_constant(signal) == Some("SIGPIPE"@) && signal_text(signal) == "broken pipe"@,
        signal == 14 ==> signal_constant(signal) == Some("SIGALRM"@) && signal_text(signal) == "alarm clock"@,
        signal == 15 ==> signal_constant(signal) == Some("SIGTERM"@) && signal_text(signal) == "terminated"@,
        signal == 16 ==> signal_constant(signal) == Some("SIGSTKFLT"@) && signal_text(signal) == "stack fault"@,
        signal == 17 ==> signal_constant(signal) == Some("SIGCHLD"@) && signal_text(signal) == "child exited"@,
        signal == 18 ==> signal_constant(signal) == Some("SIGCONT"@) && signal_text(signal) == "continued"@,
        signal == 19 ==> signal_constant(signal) == Some("SIGSTOP"@) && signal_text(signal) == "stopped (signal)"@,
        signal == 20 ==> signal_constant(signal) == Some("SIGTSTP"@) && signal_text(signal) == "stopped"@,
        signal == 21 ==> signal_constant(signal) == Some("SIGTTIN"@) && signal_text(signal) == "stopped (tty input)"@,
        signal == 22 ==> signal_constant(signal) == Some("SIGTTOU"@) && signal_text(signal) == "stopped (tty output)"@,
        signal == 23 ==> signal_constant(signal) == Some("SIGURG"@) && signal_text(signal) == "urgent I/O condition"@,
        signal == 24 ==> signal_constant(signal) == Some("SIGXCPU"@) && signal_text(signal) == "CPU time limit exceeded"@,
        signal == 25 ==> signal_constant(signal) == Some("SIGXFSZ"@) && signal_text(signal) == "file size limit exceeded"@,
        signal == 26 ==> signal_constant(signal) == Some("SIGVTALRM"@) && signal_text(signal) == "virtual timer expired"@,
        signal == 27 ==> signal_constant(signal) == Some("SIGPROF"@) && signal_text(signal) == "profiling timer expired"@,
        signal == 28 ==> signal_constant(signal) == Some("SIGWINCH"@) && signal_text(signal) == "window changed"@,
        signal == 29 ==> signal_constant(signal) == Some("SIGIO"@) && signal_text(signal) == "I/O possible"@,
        signal == 30 ==> signal_constant(signal) == Some("SIGPWR"@) && signal_text(signal) == "power failure"@,
        signal == 31 ==> signal_constant(signal) == Some("SIGSYS"@) && signal_text(signal) == "bad system call"@,
{
}

/// Bytes without a line break.
pub open spec fn one_line(bytes: Seq<u8>) -> bool {
    forall|i: int| 0 <= i < bytes.len() ==> #[trigger] bytes[i] != '\n' as u8
}

/// The first line of bytes.
proof fn lemma_first_line(line: Seq<u8>, rest: Seq<u8>)
    requires
        one_line(line),
    ensures
        first_place(line, 10) == line.len(),
        first_place(line + seq!['\n' as u8] + rest, 10) == line.len(),
        (line + seq!['\n' as u8] + rest).take(line.len() as int) == line,
        (line + seq!['\n' as u8] + rest).skip(line.len() as int + 1) == rest,
        line.take(line.len() as int) == line,
{
    let whole = line + seq!['\n' as u8] + rest;
    law_first_place_is_the_first(line, 10);
    law_first_place_is_the_first(whole, 10);
    let place = first_place(whole, 10) as int;
    assert(whole[line.len() as int] == 10);
    if place < line.len() {
        assert(whole[place] == line[place]);
    }
    assert(whole.take(line.len() as int) =~= line);
    assert(whole.skip(line.len() as int + 1) =~= rest);
    assert(line.take(line.len() as int) =~= line);
}

/// The counter of processes killed for want of memory stands on the first line that begins with its key, as
/// the number behind it; other lines make no difference.
pub proof fn law_counter_stands_behind_its_key(line: Seq<u8>, rest: Seq<u8>, number: Seq<u8>)
    requires
        one_line(line),
        one_line(number),
    ensures
        ({
            let key = encode_utf8("oom_kill "@);
            let line_break = seq!['\n' as u8];
            &&& oom_counter(key + number) == u64_value(number)
            &&& oom_counter(key + number + line_break + rest) == u64_value(number)
            &&& !(line.len() >= key.len() && line.take(key.len() as int) == key) ==> {
                &&& oom_counter(line) is None
                &&& oom_counter(line + line_break + rest) == oom_counter(rest)
            }
        }),
{
    let key = encode_utf8("oom_kill "@);
    reveal_strlit("oom_kill ");
    is_ascii_chars_encode_utf8("oom_kill "@);
    assert(key =~= oom_key());
    let counted = key + number;
    assert(one_line(counted)) by {
        assert forall|i: int| 0 <= i < counted.len() implies #[trigger] counted[i] != '\n' as u8 by {
            if i >= 9 {
                assert(counted[i] == number[i - 9]);
            } else {
                assert(counted[i] == oom_key()[i]);
            }
        }
    }
    lemma_first_line(counted, rest);
    lemma_first_line(line, rest);
    assert(counted.take(9) =~= key);
    assert(counted.skip(9) =~= number);
}

/// The counter is taken from the memory events; where these have none, from the memory control; and where
/// that has none either, it is the number on the first line of the count of refused allocations.
pub proof fn law_counter_is_taken_from_the_best_file(
    events: Option<Seq<u8>>,
    control: Option<Seq<u8>>,
    line: Seq<u8>,
    rest: Seq<u8>,
)
    requires
        one_line(line),
    ensures
        ({
            let from_events = events is Some && oom_counter(events->0) is Some;
            let from_control = control is Some && oom_counter(control->0) is Some;
            let failcnt = line + seq!['\n' as u8] + rest;
            &&& from_events ==> picked_counter(events, control, Some(failcnt)) == oom_counter(events->0)
            &&& !from_events && from_control ==> picked_counter(events, control, Some(failcnt)) == oom_counter(
                control->0,
            )
            &&& !from_events && !from_control ==> {
                &&& picked_counter(events, control, Some(failcnt)) == u64_value(line)
                &&& picked_counter(events, control, Some(line)) == u64_value(line)
                &&& picked_counter(events, control, None) is None
            }
        }),
{
    lemma_first_line(line, rest);
}

/// Memory ran out exactly where the counter is known before and after and has grown.
pub proof fn law_memory_ran_out_when_the_counter_grew(before: u64, after: u64)
    ensures
        memory_ran_out(Some(before), Some(after)) <==> before < after,
        !memory_ran_out(None, Some(after)),
        !memory_ran_out(Some(before), None),
        !memory_ran_out(None, None),
{
}

/// A process that ended without any account of it is told of as such.
pub proof fn law_missing_end_is_told(run: RunView, oom_killed: bool)
    requires
        !run.timed_out,
        run.ending is None,
    ensures
        ({
            let end = run_end(run, oom_killed);
            let words = "process did not return an exit status"@;
            &&& end.exit_code matches Some(exit_code) && exit_code == -1
            &&& !end.exited
            &&& end.status == words
            &&& end.error == Some(words)
            &&& only_reason(end.termination, "unknown"@)
        }),
{
}

/// There are 30 seconds between two signs of life, and output is taken in pieces of at most 8 KiB.
pub proof fn law_signs_of_life_come_twice_a_minute()
    ensures
        KEEPALIVE_MILLIS == 30 * 1000,
        OUTPUT_CHUNK == 8 * 1024,
{
}

/// A stream opens with the number of the process.
pub proof fn law_stream_opens_with_its_process(pid: u32)
    ensures
        opening_event(pid) == (ProcessEventView::Start { pid }),
{
}

} // verus!
