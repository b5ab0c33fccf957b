//! How processes end: signals and their names, and the account of the end that clients get.

use crate::text::{
    find_byte, first_place, has_prefix, header_bytes, join, optional, parse_unsigned, signed_decimal,
    signed_text, u64_value,
};
use vstd::prelude::*;
use vstd::slice::*;

verus! {

/// How a process ended, as the host reports it: by a signal, perhaps with a core dump, or with an
/// exit code.
#[derive(Clone, Copy, Debug, PartialEq, Eq, Structural)]
pub struct ExitStatus {
    pub signal: Option<i32>,
    pub code: Option<i32>,
    pub core_dumped: bool,
}

/// The account of the end of a process.
#[verifier::ext_equal]
#[derive(Clone, Debug, PartialEq, Eq)]
pub struct TerminationInfoOf<T> {
    pub reason: T,
    pub signal: Option<i32>,
    pub signal_name: Option<T>,
    pub core_dumped: bool,
}

pub type TerminationInfo = TerminationInfoOf<String>;

pub type TerminationView = TerminationInfoOf<Seq<char>>;

impl View for TerminationInfoOf<String> {
    type V = TerminationInfoOf<Seq<char>>;

    open spec fn view(&self) -> TerminationInfoOf<Seq<char>> {
        TerminationInfoOf {
            reason: self.reason@,
            signal: self.signal,
            signal_name: optional(self.signal_name),
            core_dumped: self.core_dumped,
        }
    }
}

/// The description of a signal, where it has one.
pub open spec fn signal_description(signal: i32) -> Option<Seq<char>> {
    match signal {
        1 => Some("hangup"@),
        2 => Some("interrupt"@),
        3 => Some("quit"@),
        4 => Some("illegal instruction"@),
        5 => Some("trace/breakpoint trap"@),
        6 => Some("aborted"@),
        7 => Some("bus error"@),
        8 => Some("floating point exception"@),
        9 => Some("killed"@),
        10 => Some("user defined signal 1"@),
        11 => Some("segmentation fault"@),
        12 => Some("user defined signal 2"@),
        13 => Some("broken pipe"@),
        14 => Some("alarm clock"@),
        15 => Some("terminated"@),
        16 => Some("stack fault"@),
        17 => Some("child exited"@),
        18 => Some("continued"@),
        19 => Some("stopped (signal)"@),
        20 => Some("stopped"@),
        21 => Some("stopped (tty input)"@),
        22 => Some("stopped (tty output)"@),
        23 => Some("urgent I/O condition"@),
        24 => Some("CPU time limit exceeded"@),
        25 => Some("file size limit exceeded"@),
        26 => Some("virtual timer expired"@),
        27 => Some("profiling timer expired"@),
        28 => Some("window changed"@),
        29 => Some("I/O possible"@),
        30 => Some("power failure"@),
        31 => Some("bad system call"@),
        _ => None,
    }
}

/// The text for a signal: its description, or its number.
pub open spec fn signal_text(signal: i32) -> Seq<char> {
    match signal_description(signal) {
        Some(description) => description,
        None => "signal "@ + signed_text(signal as int),
    }
}

/// Writes the text for a signal.
pub fn legacy_signal_name(signal: i32) -> (text: String)
    ensures
        text@ == signal_text(signal),
{
    let description: &str = match signal {
        1 => "hangup",
        2 => "interrupt",
        3 => "quit",
        4 => "illegal instruction",
        5 => "trace/breakpoint trap",
        6 => "aborted",
        7 => "bus error",
        8 => "floating point exception",
        9 => "killed",
        10 => "user defined signal 1",
        11 => "segmentation fault",
        12 => "user defined signal 2",
        13 => "broken pipe",
        14 => "alarm clock",
        15 => "terminated",
        16 => "stack fault",
        17 => "child exited",
        18 => "continued",
        19 => "stopped (signal)",
        20 => "stopped",
        21 => "stopped (tty input)",
        22 => "stopped (tty output)",
        23 => "urgent I/O condition",
        24 => "CPU time limit exceeded",
        25 => "file size limit exceeded",
        26 => "virtual timer expired",
        27 => "profiling timer expired",
        28 => "window changed",
        29 => "I/O possible",
        30 => "power failure",
        31 => "bad system call",
        _ => {
            return join("signal ", signed_decimal(signal).as_str());
        },
    };
    description.to_owned()
}

/// The name of a signal, where it has one.
pub open spec fn signal_constant(signal: i32) -> Option<Seq<char>> {
    match signal {
        1 => Some("SIGHUP"@),
        2 => Some("SIGINT"@),
        3 => Some("SIGQUIT"@),
        4 => Some("SIGILL"@),
        5 => Some("SIGTRAP"@),
        6 => Some("SIGABRT"@),
        7 => Some("SIGBUS"@),
        8 => Some("SIGFPE"@),
        9 => Some("SIGKILL"@),
        10 => Some("SIGUSR1"@),
        11 => Some("SIGSEGV"@),
        12 => Some("SIGUSR2"@),
        13 => Some("SIGPIPE"@),
        14 => Some("SIGALRM"@),
        15 => Some("SIGTERM"@),
        16 => Some("SIGSTKFLT"@),
        17 => Some("SIGCHLD"@),
        18 => Some("SIGCONT"@),
        19 => Some("SIGSTOP"@),
        20 => Some("SIGTSTP"@),
        21 => Some("SIGTTIN"@),
        22 => Some("SIGTTOU"@),
        23 => Some("SIGURG"@),
        24 => Some("SIGXCPU"@),
        25 => Some("SIGXFSZ"@),
        26 => Some("SIGVTALRM"@),
        27 => Some("SIGPROF"@),
        28 => Some("SIGWINCH"@),
        29 => Some("SIGIO"@),
        30 => Some("SIGPWR"@),
        31 => Some("SIGSYS"@),
        _ => None,
    }
}

/// Names a signal.
pub fn signal_name(signal: i32) -> (name: Option<String>)
    ensures
        optional(name) == signal_constant(signal),
{
    let name: &str = match signal {
        1 => "SIGHUP",
        2 => "SIGINT",
        3 => "SIGQUIT",
        4 => "SIGILL",
        5 => "SIGTRAP",
        6 => "SIGABRT",
        7 => "SIGBUS",
        8 => "SIGFPE",
        9 => "SIGKILL",
        10 => "SIGUSR1",
        11 => "SIGSEGV",
        12 => "SIGUSR2",
        13 => "SIGPIPE",
        14 => "SIGALRM",
        15 => "SIGTERM",
        16 => "SIGSTKFLT",
        17 => "SIGCHLD",
        18 => "SIGCONT",
        19 => "SIGSTOP",
        20 => "SIGTSTP",
        21 => "SIGTTIN",
        22 => "SIGTTOU",
        23 => "SIGURG",
        24 => "SIGXCPU",
        25 => "SIGXFSZ",
        26 => "SIGVTALRM",
        27 => "SIGPROF",
        28 => "SIGWINCH",
        29 => "SIGIO",
        30 => "SIGPWR",
        31 => "SIGSYS",
        _ => {
            return None;
        },
    };
    Some(name.to_owned())
}

/// The account of an end that only has a reason.
pub open spec fn plain_end(reason: Seq<char>) -> TerminationView {
    TerminationInfoOf { reason, signal: None, signal_name: None, core_dumped: false }
}

/// The account of the end that a status tells of. A process that was ended by a signal while the host
/// ran out of memory was ended for that reason.
pub open spec fn status_end(status: ExitStatus, oom_killed: bool) -> TerminationView {
    match status.signal {
        Some(signal) => TerminationInfoOf {
            reason: if oom_killed {
                "oom"@
            } else {
                "signal"@
            },
            signal: Some(signal),
            signal_name: signal_constant(signal),
            core_dumped: status.core_dumped,
        },
        None => plain_end("exited"@),
    }
}

/// Gives an account of an end that only has a reason.
fn plain(reason: &str) -> (info: TerminationInfo)
    ensures
        info@ == plain_end(reason@),
{
    TerminationInfoOf { reason: reason.to_owned(), signal: None, signal_name: None, core_dumped: false }
}

impl TerminationInfoOf<String> {
    /// The account of an end that the host could not tell of.
    pub fn unknown() -> (info: Self)
        ensures
            info@ == plain_end("unknown"@),
    {
        plain("unknown")
    }

    /// The account of an end that the time limit brought.
    pub fn timeout() -> (info: Self)
        ensures
            info@ == plain_end("timeout"@),
    {
        plain("timeout")
    }
}

/// Gives an account of the end that a status tells of.
pub fn from_exit_status(status: ExitStatus, oom_killed: bool) -> (info: TerminationInfo)
    ensures
        info@ == status_end(status, oom_killed),
{
    match status.signal {
        Some(signal) => {
            let reason: &str = if oom_killed {
                "oom"
            } else {
                "signal"
            };
            TerminationInfoOf {
                reason: reason.to_owned(),
                signal: Some(signal),
                signal_name: signal_name(signal),
                core_dumped: status.core_dumped,
            }
        },
        None => plain("exited"),
    }
}

/// The key of the counter of processes killed for want of memory, and the space behind it:
/// `oom_kill `.
pub open spec fn oom_key() -> Seq<u8> {
    seq![111, 111, 109, 95, 107, 105, 108, 108, 32]
}

/// The counter of processes killed for want of memory, in a list of counters with one on each line.
/// The first line with its key counts.
pub open spec fn oom_counter(text: Seq<u8>) -> Option<u64>
    decreases text.len(),
{
    let end = first_place(text, 10) as int;
    let line = text.take(end);
    if line.len() >= 9 && line.take(9) == oom_key() {
        u64_value(line.skip(9))
    } else if end < text.len() {
        oom_counter(text.skip(end + 1))
    } else {
        None
    }
}

/// Reads the counter of processes killed for want of memory out of a list of counters.
pub fn read_oom_counter(text: &[u8]) -> (counter: Option<u64>)
    ensures
        counter == oom_counter(text@),
{
    let key: [u8; 9] = [111, 111, 109, 95, 107, 105, 108, 108, 32];
    assert(key@ =~= oom_key());
    let mut start: usize = 0;
    assert(text@.skip(0) =~= text@);
    loop
        invariant
            start <= text@.len(),
            key@ == oom_key(),
            oom_counter(text@) == oom_counter(text@.skip(start as int)),
        decreases text@.len() - start,
    {
        let rest = slice_subrange(text, start, text.len());
        assert(rest@ =~= text@.skip(start as int));
        let end: usize = find_byte(rest, 10);
        let line = slice_subrange(rest, 0, end);
        assert(line@ =~= rest@.take(end as int));
        if has_prefix(line, &key) {
            let number = slice_subrange(line, 9, line.len());
            assert(number@ =~= line@.skip(9));
            return parse_unsigned(number, u64::MAX);
        }
        if end >= rest.len() {
            return None;
        }
        assert(rest@.skip(end + 1) =~= text@.skip(start + end + 1));
        start = start + end + 1;
    }
}

/// The first line of a text.
pub open spec fn first_line(text: Seq<u8>) -> Seq<u8> {
    text.take(first_place(text, 10) as int)
}

/// The number on the first line of a text.
pub open spec fn line_counter(text: Seq<u8>) -> Option<u64> {
    u64_value(first_line(text))
}

/// The counter of processes killed for want of memory: the one in the list of memory events; where there
/// is none, the one of the memory control; and where there is none there either, the count of refused
/// allocations, which stands alone on a line.
pub open spec fn picked_counter(
    events: Option<Seq<u8>>,
    control: Option<Seq<u8>>,
    failcnt: Option<Seq<u8>>,
) -> Option<u64> {
    if events is Some && oom_counter(events->0) is Some {
        oom_counter(events->0)
    } else if control is Some && oom_counter(control->0) is Some {
        oom_counter(control->0)
    } else if failcnt is Some {
        line_counter(failcnt->0)
    } else {
        None
    }
}

/// Picks the counter of processes killed for want of memory out of the files that there are.
pub fn pick_counter(events: Option<&[u8]>, control: Option<&[u8]>, failcnt: Option<&[u8]>) -> (counter: Option<u64>)
    ensures
        counter == picked_counter(header_bytes(events), header_bytes(control), header_bytes(failcnt)),
{
    if let Some(text) = events {
        let counter: Option<u64> = read_oom_counter(text);
        if counter.is_some() {
            return counter;
        }
    }
    if let Some(text) = control {
        let counter: Option<u64> = read_oom_counter(text);
        if counter.is_some() {
            return counter;
        }
    }
    match failcnt {
        Some(text) => {
            let end: usize = find_byte(text, 10);
            let line = slice_subrange(text, 0, end);
            assert(line@ =~= first_line(text@));
            parse_unsigned(line, u64::MAX)
        },
        None => None,
    }
}

/// Processes were killed for want of memory between two readings of the counter: it has grown.
pub open spec fn memory_ran_out(before: Option<u64>, after: Option<u64>) -> bool {
    before is Some && after is Some && after->0 > before->0
}

/// Whether processes were killed for want of memory between two readings of the counter.
pub fn was_oom_killed(before: Option<u64>, after: Option<u64>) -> (killed: bool)
    ensures
        killed == (before is Some && after is Some && after->0 > before->0),
        killed == memory_ran_out(before, after),
{
    match (before, after) {
        (Some(before), Some(after)) => after > before,
        _ => false,
    }
}

/// The account of an end tells the signal of the status. Its reason is an exit exactly where there is
/// no signal, a lack of memory exactly where there is a signal and memory ran out, and the signal
/// exactly where there is one and memory did not run out.
pub proof fn law_reason_matches_status(status: ExitStatus, oom_killed: bool)
    ensures
        ({
            let end = status_end(status, oom_killed);
            &&& end.signal == status.signal
            &&& status.signal is None <==> end.reason == "exited"@
            &&& status.signal is Some && oom_killed <==> end.reason == "oom"@
            &&& status.signal is Some && !oom_killed <==> end.reason == "signal"@
        }),
{
    reveal_strlit("exited");
    reveal_strlit("oom");
    reveal_strlit("signal");
    assert("exited"@[0] == 'e' && "oom"@[0] == 'o' && "signal"@[0] == 's');
}

} // verus!
