//! A directory while it is watched: which changes are told, when a sign of life is given, and when the
//! watch is given up.

use crate::connect::{ConnectError, ConnectErrorOf, ConnectErrorView};
use crate::text::{optional_bytes, reversed, show, shown};
use crate::watch::{change_name, event_type};
use vstd::prelude::*;

verus! {

/// The time between two looks at the changes, in milliseconds.
pub const POLL_MILLIS: u64 = 50;

/// The time without a change after which a sign of life is given, in milliseconds.
pub const KEEPALIVE_MILLIS: u64 = 30000;

/// A change as the host reports it: the name of the file, where there is one, and the bits that tell
/// what happened.
#[verifier::ext_equal]
#[derive(Clone, Debug, PartialEq, Eq)]
pub struct RawChangeOf<B> {
    pub name: Option<B>,
    pub mask: u32,
}

pub type RawChange = RawChangeOf<Vec<u8>>;

pub type RawChangeView = RawChangeOf<Seq<u8>>;

impl View for RawChangeOf<Vec<u8>> {
    type V = RawChangeOf<Seq<u8>>;

    open spec fn view(&self) -> RawChangeOf<Seq<u8>> {
        RawChangeOf { name: optional_bytes(self.name), mask: self.mask }
    }
}

/// A change as the client is told of it.
#[verifier::ext_equal]
#[derive(Clone, Debug, PartialEq, Eq)]
pub struct ChangeOf<T> {
    pub name: T,
    pub event_type: T,
}

pub type Change = ChangeOf<String>;

pub type ChangeView = ChangeOf<Seq<char>>;

impl View for ChangeOf<String> {
    type V = ChangeOf<Seq<char>>;

    open spec fn view(&self) -> ChangeOf<Seq<char>> {
        ChangeOf { name: self.name@, event_type: self.event_type@ }
    }
}

/// The contents of changes as the host reports them.
pub open spec fn raw_views(changes: Seq<RawChange>) -> Seq<RawChangeView> {
    Seq::new(changes.len(), |i: int| changes[i]@)
}

/// The contents of changes as the client is told of them.
pub open spec fn change_views(changes: Seq<Change>) -> Seq<ChangeView> {
    Seq::new(changes.len(), |i: int| changes[i]@)
}

/// What the client is told of one change: nothing where it has no file or no name.
pub open spec fn told_change(change: RawChangeView) -> Option<ChangeView> {
    match (change.name, change_name(change.mask)) {
        (Some(name), Some(event_type)) => Some(ChangeOf { name: shown(name), event_type }),
        _ => None,
    }
}

/// What the client is told of changes, in their order.
pub open spec fn told_changes(changes: Seq<RawChangeView>) -> Seq<ChangeView>
    decreases changes.len(),
{
    if changes.len() == 0 {
        Seq::empty()
    } else {
        let before = told_changes(changes.drop_last());
        match told_change(changes.last()) {
            Some(change) => before.push(change),
            None => before,
        }
    }
}

/// Reads changes as the client is told of them.
pub fn read_changes(raw: &Vec<RawChange>) -> (changes: Vec<Change>)
    ensures
        change_views(changes@) == told_changes(raw_views(raw@)),
{
    let mut changes: Vec<Change> = Vec::new();
    let ghost whole = raw_views(raw@);
    let mut i: usize = 0;
    assert(change_views(changes@) =~= told_changes(whole.take(0)));
    while i < raw.len()
        invariant
            i <= raw@.len(),
            whole == raw_views(raw@),
            change_views(changes@) == told_changes(whole.take(i as int)),
        decreases raw@.len() - i,
    {
        proof {
            assert(whole.take(i + 1).drop_last() =~= whole.take(i as int));
            assert(whole.take(i + 1).last() == raw@[i as int]@);
        }
        let ghost before = change_views(changes@);
        let event_type: Option<String> = event_type(raw[i].mask);
        match (&raw[i].name, event_type) {
            (Some(name), Some(event_type)) => {
                let change: Change = ChangeOf { name: show(name), event_type };
                changes.push(change);
                assert(change_views(changes@) =~= before.push(change@));
            },
            _ => {},
        }
        i += 1;
    }
    assert(whole.take(i as int) =~= whole);
    changes
}

/// The error that ends the stream of a watch.
pub open spec fn ending_error(message: Seq<char>) -> ConnectErrorView {
    ConnectErrorOf { code: "internal"@, message }
}

/// Makes the error that ends the stream of a watch.
pub fn end_error(message: String) -> (error: ConnectError)
    ensures
        error@ == (ConnectErrorOf { code: "internal"@, message: message@ }),
{
    ConnectErrorOf::new("internal", message)
}

/// What is to be done next for a watch: tell the client that it has begun; wait until it is time to look,
/// or until the client is gone; look at the changes without waiting for any; tell the client of a change,
/// give a sign of life, or end the stream with an error; or give the watch up.
#[verifier::ext_equal]
#[derive(Clone, Debug, PartialEq, Eq)]
pub enum WatcherOpOf<T> {
    Announce,
    Pause { milliseconds: u64 },
    Read,
    Tell(ChangeOf<T>),
    Keepalive,
    EndWithError(ConnectErrorOf<T>),
    Release,
}

pub type WatcherOp = WatcherOpOf<String>;

pub type WatcherOpView = WatcherOpOf<Seq<char>>;

impl View for WatcherOpOf<String> {
    type V = WatcherOpOf<Seq<char>>;

    open spec fn view(&self) -> WatcherOpOf<Seq<char>> {
        match self {
            WatcherOpOf::Announce => WatcherOpOf::Announce,
            WatcherOpOf::Pause { milliseconds } => WatcherOpOf::Pause { milliseconds: *milliseconds },
            WatcherOpOf::Read => WatcherOpOf::Read,
            WatcherOpOf::Tell(change) => WatcherOpOf::Tell(change@),
            WatcherOpOf::Keepalive => WatcherOpOf::Keepalive,
            WatcherOpOf::EndWithError(error) => WatcherOpOf::EndWithError(error@),
            WatcherOpOf::Release => WatcherOpOf::Release,
        }
    }
}

/// What became of it: the time has passed; the client is gone; there were changes, perhaps none; there was
/// nothing to be looked at without waiting; looking failed; something was sent, or could not be sent.
#[derive(Clone, Debug, PartialEq, Eq)]
pub enum WatcherEvent {
    Elapsed,
    Cancelled,
    Changes(Vec<RawChange>),
    WouldBlock,
    ReadFailed(String),
    Sent,
    NotSent,
}

/// The content of a `WatcherEvent`.
#[verifier::ext_equal]
pub enum WatcherEventView {
    Elapsed,
    Cancelled,
    Changes(Seq<RawChangeView>),
    WouldBlock,
    ReadFailed(Seq<char>),
    Sent,
    NotSent,
}

impl View for WatcherEvent {
    type V = WatcherEventView;

    open spec fn view(&self) -> WatcherEventView {
        match self {
            WatcherEvent::Elapsed => WatcherEventView::Elapsed,
            WatcherEvent::Cancelled => WatcherEventView::Cancelled,
            WatcherEvent::Changes(changes) => WatcherEventView::Changes(raw_views(changes@)),
            WatcherEvent::WouldBlock => WatcherEventView::WouldBlock,
            WatcherEvent::ReadFailed(message) => WatcherEventView::ReadFailed(message@),
            WatcherEvent::Sent => WatcherEventView::Sent,
            WatcherEvent::NotSent => WatcherEventView::NotSent,
        }
    }
}

/// What a watch waits for.
#[derive(Clone, Copy, Debug, PartialEq, Eq, Structural)]
pub enum Phase {
    Announcing,
    Pausing,
    Reading,
    Telling,
    KeepingAlive,
    Ending,
    Released,
}

/// A directory that is watched: what it waits for, the changes that are still to be told, and when the
/// client was last told something, in milliseconds of some clock.
#[verifier::ext_equal]
#[derive(Clone, Debug, PartialEq, Eq)]
pub struct WatcherOf<L> {
    pub phase: Phase,
    pub pending: L,
    pub last_event: u64,
}

pub type Watcher = WatcherOf<Vec<Change>>;

pub type WatcherView = WatcherOf<Seq<ChangeView>>;

impl View for WatcherOf<Vec<Change>> {
    type V = WatcherOf<Seq<ChangeView>>;

    open spec fn view(&self) -> WatcherOf<Seq<ChangeView>> {
        WatcherOf {
            phase: self.phase,
            pending: change_views(self.pending@.reverse()),
            last_event: self.last_event,
        }
    }
}

/// Waits until it is time to look again.
pub open spec fn pause(last_event: u64) -> (WatcherView, WatcherOpView) {
    (
        WatcherOf { phase: Phase::Pausing, pending: Seq::empty(), last_event },
        WatcherOpOf::Pause { milliseconds: POLL_MILLIS },
    )
}

/// Gives the watch up.
pub open spec fn release(watcher: WatcherView) -> (WatcherView, WatcherOpView) {
    (
        WatcherOf { phase: Phase::Released, pending: Seq::empty(), last_event: watcher.last_event },
        WatcherOpOf::Release,
    )
}

/// Tells the client of the next change, or, where there is none, gives a sign of life when it is time
/// for one and waits otherwise.
pub open spec fn proceed(pending: Seq<ChangeView>, last_event: u64, now: u64) -> (WatcherView, WatcherOpView) {
    if pending.len() > 0 {
        (
            WatcherOf { phase: Phase::Telling, pending: pending.skip(1), last_event: now },
            WatcherOpOf::Tell(pending[0]),
        )
    } else if now - last_event >= KEEPALIVE_MILLIS {
        (WatcherOf { phase: Phase::KeepingAlive, pending, last_event }, WatcherOpOf::Keepalive)
    } else {
        pause(last_event)
    }
}

/// What an event leads to, at a time of the clock. Whether the client could be told that the watch has
/// begun makes no difference yet. Nothing to be looked at is no change. The watch is given up when the client is gone, when
/// something cannot be sent to it, and when looking at the changes fails, of which the client is told.
pub open spec fn watcher_next(watcher: WatcherView, event: WatcherEventView, now: u64) -> (WatcherView, WatcherOpView) {
    match (watcher.phase, event) {
        (Phase::Announcing, WatcherEventView::Sent) => pause(now),
        (Phase::Announcing, WatcherEventView::NotSent) => pause(now),
        (Phase::Pausing, WatcherEventView::Elapsed) => (
            WatcherOf { phase: Phase::Reading, pending: Seq::empty(), last_event: watcher.last_event },
            WatcherOpOf::Read,
        ),
        (Phase::Reading, WatcherEventView::Changes(raw)) => proceed(told_changes(raw), watcher.last_event, now),
        (Phase::Reading, WatcherEventView::WouldBlock) => proceed(Seq::empty(), watcher.last_event, now),
        (Phase::Reading, WatcherEventView::ReadFailed(message)) => (
            WatcherOf { phase: Phase::Ending, pending: Seq::empty(), last_event: watcher.last_event },
            WatcherOpOf::EndWithError(ending_error(message)),
        ),
        (Phase::Telling, WatcherEventView::Sent) => proceed(watcher.pending, watcher.last_event, now),
        (Phase::KeepingAlive, WatcherEventView::Sent) => pause(now),
        _ => release(watcher),
    }
}

/// A watch that has just been set up.
pub open spec fn announce(now: u64) -> (WatcherView, WatcherOpView) {
    (WatcherOf { phase: Phase::Announcing, pending: Seq::empty(), last_event: now }, WatcherOpOf::Announce)
}

/// Starts to watch at a time of the clock: the client is told so first.
pub fn run_watcher(now: u64) -> (start: (Watcher, WatcherOp))
    ensures
        (start.0@, start.1@) == announce(now),
{
    let pending: Vec<Change> = Vec::new();
    assert(change_views(pending@.reverse()) =~= Seq::<ChangeView>::empty());
    (WatcherOf { phase: Phase::Announcing, pending, last_event: now }, WatcherOpOf::Announce)
}

/// Waits until it is time to look again.
fn pausing(last_event: u64) -> (next: (Watcher, WatcherOp))
    ensures
        (next.0@, next.1@) == pause(last_event),
{
    let pending: Vec<Change> = Vec::new();
    assert(change_views(pending@.reverse()) =~= Seq::<ChangeView>::empty());
    (WatcherOf { phase: Phase::Pausing, pending, last_event }, WatcherOpOf::Pause { milliseconds: POLL_MILLIS })
}

/// Tells the client of the next change, gives a sign of life, or waits. The changes that are still to be
/// told are held in reverse.
fn next_change(backwards: Vec<Change>, last_event: u64, now: u64) -> (next: (Watcher, WatcherOp))
    ensures
        (next.0@, next.1@) == proceed(change_views(backwards@.reverse()), last_event, now),
{
    let ghost pending = change_views(backwards@.reverse());
    let mut rest: Vec<Change> = backwards;
    match rest.pop() {
        Some(change) => {
            assert(change_views(rest@.reverse()) =~= pending.skip(1));
            assert(pending[0] == change@);
            (WatcherOf { phase: Phase::Telling, pending: rest, last_event: now }, WatcherOpOf::Tell(change))
        },
        None => {
            assert(pending =~= Seq::<ChangeView>::empty());
            if now >= last_event && now - last_event >= KEEPALIVE_MILLIS {
                (WatcherOf { phase: Phase::KeepingAlive, pending: rest, last_event }, WatcherOpOf::Keepalive)
            } else {
                pausing(last_event)
            }
        },
    }
}

impl WatcherOf<Vec<Change>> {
    /// Goes on with an event, at a time of the clock, and says what is to be done.
    pub fn step(self, event: WatcherEvent, now: u64) -> (next: (Watcher, WatcherOp))
        ensures
            (next.0@, next.1@) == watcher_next(self@, event@, now),
    {
        let none: Vec<Change> = Vec::new();
        assert(change_views(none@.reverse()) =~= Seq::<ChangeView>::empty());
        let last_event: u64 = self.last_event;
        match (self.phase, event) {
            (Phase::Announcing, WatcherEvent::Sent) => pausing(now),
            (Phase::Announcing, WatcherEvent::NotSent) => pausing(now),
            (Phase::Pausing, WatcherEvent::Elapsed) => (
                WatcherOf { phase: Phase::Reading, pending: none, last_event },
                WatcherOpOf::Read,
            ),
            (Phase::Reading, WatcherEvent::Changes(raw)) => {
                let changes: Vec<Change> = read_changes(&raw);
                let ghost told = changes@;
                let backwards: Vec<Change> = reversed(changes);
                assert(told.reverse().reverse() =~= told);
                next_change(backwards, last_event, now)
            },
            (Phase::Reading, WatcherEvent::ReadFailed(message)) => (
                WatcherOf { phase: Phase::Ending, pending: none, last_event },
                WatcherOpOf::EndWithError(end_error(message)),
            ),
            (Phase::Reading, WatcherEvent::WouldBlock) => next_change(none, last_event, now),
            (Phase::Telling, WatcherEvent::Sent) => next_change(self.pending, last_event, now),
            (Phase::KeepingAlive, WatcherEvent::Sent) => pausing(now),
            _ => (WatcherOf { phase: Phase::Released, pending: none, last_event }, WatcherOpOf::Release),
        }
    }
}

/// What the client is told of changes from a step on when everything can be sent, `times` being the
/// times at which it was sent.
pub open spec fn tells(watcher: WatcherView, op: WatcherOpView, times: Seq<u64>) -> Seq<ChangeView>
    decreases times.len(),
{
    match op {
        WatcherOpOf::Tell(change) => if times.len() == 0 {
            seq![change]
        } else {
            let (next, op) = watcher_next(watcher, WatcherEventView::Sent, times[0]);
            seq![change] + tells(next, op, times.skip(1))
        },
        _ => Seq::empty(),
    }
}

/// The client is told of every change that has a file and a name, exactly once and in order, as long as
/// it can be told.
pub proof fn law_all_changes_are_told(pending: Seq<ChangeView>, last_event: u64, now: u64, times: Seq<u64>)
    requires
        times.len() >= pending.len(),
    ensures
        ({
            let (watcher, op) = proceed(pending, last_event, now);
            tells(watcher, op, times) == pending
        }),
    decreases pending.len(),
{
    if pending.len() > 0 {
        law_all_changes_are_told(pending.skip(1), now, times[0], times.skip(1));
        assert(seq![pending[0]] + pending.skip(1) =~= pending);
    } else {
        let (watcher, op) = proceed(pending, last_event, now);
        assert(tells(watcher, op, times) =~= pending);
    }
}

/// A watch is given up at once when the client is gone or cannot be reached, and after the client was
/// told of it when looking at the changes fails.
pub proof fn law_watch_is_given_up(watcher: WatcherView, message: Seq<char>, now: u64)
    ensures
        watcher_next(watcher, WatcherEventView::Cancelled, now).1 is Release,
        watcher.phase !is Announcing ==> watcher_next(watcher, WatcherEventView::NotSent, now).1 is Release,
        watcher.phase is Ending ==> watcher_next(watcher, WatcherEventView::Sent, now).1 is Release,
        watcher.phase is Reading ==> {
            let (next, op) = watcher_next(watcher, WatcherEventView::ReadFailed(message), now);
            &&& op == WatcherOpView::EndWithError(ConnectErrorOf { code: "internal"@, message })
            &&& next.phase is Ending
        },
{
}

/// How many watches this one counts for: one until it is given up.
pub open spec fn active(watcher: WatcherView) -> nat {
    if watcher.phase is Released {
        0
    } else {
        1
    }
}

/// A watch counts from its beginning, and stops to count exactly when it asks to be released, which it
/// does once: a watch that was given up stays so.
pub proof fn law_watch_counts_until_its_release(watcher: WatcherView, event: WatcherEventView, now: u64)
    ensures
        active(announce(now).0) == 1,
        ({
            let (next, op) = watcher_next(watcher, event, now);
            &&& op is Release <==> active(next) == 0
            &&& active(next) <= active(watcher)
        }),
{
}

/// A look that would have to wait counts as one without changes.
pub proof fn law_waiting_is_no_change(watcher: WatcherView, now: u64)
    requires
        watcher.phase is Reading,
    ensures
        watcher_next(watcher, WatcherEventView::WouldBlock, now) == watcher_next(
            watcher,
            WatcherEventView::Changes(Seq::empty()),
            now,
        ),
{
}

/// The client is told first that the watch has begun, and after that only of changes, of life, and of an
/// error that ends the stream.
pub proof fn law_watch_is_announced_once(watcher: WatcherView, event: WatcherEventView, now: u64)
    ensures
        announce(now).1 is Announce,
        watcher_next(watcher, event, now).1 !is Announce,
        watcher_next(watcher, event, now).0.phase !is Announcing,
{
}

/// A sign of life is given after a look without changes exactly when the client was not told anything
/// for the set time, and the time starts anew with it.
pub proof fn law_signs_of_life(watcher: WatcherView, raw: Seq<RawChangeView>, now: u64, later: u64)
    requires
        watcher.phase is Reading,
        told_changes(raw).len() == 0,
    ensures
        ({
            let (next, op) = watcher_next(watcher, WatcherEventView::Changes(raw), now);
            &&& op is Keepalive <==> now - watcher.last_event >= KEEPALIVE_MILLIS
            &&& op is Keepalive ==> watcher_next(next, WatcherEventView::Sent, later) == pause(later)
            &&& op !is Keepalive ==> (next, op) == pause(watcher.last_event)
        }),
{
}

} // verus!
