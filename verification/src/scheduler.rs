//! The calibrated scheduler and the schedule runner, as one state machine.
//!
//! For each entry in turn the runner waits until two seconds before the
//! target time, then until one second before it, posts a probe and deletes
//! it, measures by how much the probe missed its time, waits until the
//! target time corrected by that drift, and posts the message, with a reply
//! that reports the time of the post where the entry asks for one.
//!
//! The machine decides; the caller acts. `Runner::step` takes what happened
//! and says what to do next.

use vstd::prelude::*;
use vstd::utf8::*;
use vstd::string::StringExecFns;
use crate::client::{
    create_request, create_request_text, delete_request, delete_request_text, reply_request,
    reply_request_text, Request, RequestText, TransportError,
};
use crate::clock::{
    decode_time, format_wall_clock, identifier_millis, local_instant, local_wall_clock,
    now_millis, parse_wall_clock, parsed_wall_clock, seconds_of, shown_in_utc,
    shown_locally_at, shows_locally, wall_clock_text, whole_seconds, WallClock,
};
use crate::signer::Credential;
use crate::text::{append_decimal, decimal_text, lemma_decimal_text_ascii, text_from_ascii};

verus! {

/// One scheduled post.
#[derive(Clone, Debug, PartialEq, Eq)]
pub struct ScheduleEntry {
    /// The target time, in milliseconds since the Unix epoch.
    pub target: i64,
    /// The text to post.
    pub message: String,
    /// Whether a reply shall report the time at which the post was made.
    pub report: bool,
}

/// Why a schedule entry could not be loaded.
#[derive(Clone, Copy, Debug, PartialEq, Eq, Structural)]
pub enum ConfigError {
    /// The date is not of the form `YYYY-MM-DD HH:MM:SS.mmm`, or a field is
    /// out of range.
    MalformedDate,
    /// The local time zone never shows this date and time, or shows it
    /// twice.
    NoSuchLocalTime,
}

/// The entry for a date that the local time zone shows at `instant`.
pub fn entry_at(
    instant: Option<i64>,
    message: &str,
    report: bool,
) -> (entry: Result<ScheduleEntry, ConfigError>)
    ensures
        instant is None ==> entry == Err::<ScheduleEntry, ConfigError>(
            ConfigError::NoSuchLocalTime,
        ),
        instant matches Some(target) ==> entry matches Ok(e) && e.target == target && e.message@
            == message@ && e.report == report,
{
    match instant {
        Some(target) => Ok(ScheduleEntry { target, message: String::from_str(message), report }),
        None => Err(ConfigError::NoSuchLocalTime),
    }
}

/// What loading an entry gives for a date that reads as `clock`: an entry
/// whose target time is an instant at which a time zone shows `clock`, or
/// the error that there is no such instant.
pub open spec fn loaded_at(
    clock: WallClock,
    message: Seq<char>,
    report: bool,
    entry: Result<ScheduleEntry, ConfigError>,
) -> bool {
    match entry {
        Ok(loaded) => loaded.message@ == message && loaded.report == report && shows_locally(
            clock,
            loaded.target,
        ),
        Err(error) => error == ConfigError::NoSuchLocalTime,
    }
}

/// Loads a schedule entry: `date` is a local date and time of the form
/// `YYYY-MM-DD HH:MM:SS.mmm`, which the machine's time zone turns into the
/// target time. A date that no calendar has is at no instant.
pub fn load_entry(
    date: &str,
    message: &str,
    report: bool,
) -> (entry: Result<ScheduleEntry, ConfigError>)
    ensures
        parsed_wall_clock(encode_utf8(date@)) is None ==> entry == Err::<
            ScheduleEntry,
            ConfigError,
        >(ConfigError::MalformedDate),
        parsed_wall_clock(encode_utf8(date@)) matches Some(clock) ==> loaded_at(
            clock,
            message@,
            report,
            entry,
        ) && (shown_in_utc(clock) is None ==> entry is Err),
{
    match parse_wall_clock(date) {
        Some(clock) => entry_at(local_instant(&clock), message, report),
        None => Err(ConfigError::MalformedDate),
    }
}

/// How long to sleep at `now` to wake at `deadline`, in milliseconds:
/// nothing where the deadline has passed, never more than a sleep can hold.
pub open spec fn clamped_wait(now: int, deadline: int) -> int {
    if deadline <= now {
        0
    } else if deadline - now > u64::MAX {
        u64::MAX as int
    } else {
        deadline - now
    }
}

/// The end of the coarse wait: two seconds before the target time.
pub open spec fn coarse_deadline(target: int) -> int {
    target - 2000
}

/// The time at which the probe is posted: one second before the target
/// time.
pub open spec fn probe_deadline(target: int) -> int {
    target - 1000
}

/// By how much the probe came early: positive where it was posted before
/// its time, negative where it was late.
pub open spec fn drift(target: int, probe_posted: int) -> int {
    probe_deadline(target) - probe_posted
}

/// The time at which the message is posted: the target time shifted by the
/// drift of the probe.
pub open spec fn corrected_deadline(target: int, probe_posted: int) -> int {
    target + drift(target, probe_posted)
}

/// A wait is never negative, and there is none for a deadline that has
/// passed: with a target time in the past, neither the coarse wait nor the
/// wait for the probe takes any time.
pub proof fn lemma_no_wait_for_the_past(target: int, now: int, deadline: int)
    ensures
        clamped_wait(now, deadline) >= 0,
        deadline <= now ==> clamped_wait(now, deadline) == 0,
        target <= now ==> clamped_wait(now, coarse_deadline(target)) == 0,
        target <= now ==> clamped_wait(now, probe_deadline(target)) == 0,
{
}

/// How long to sleep at `now` to wake at `deadline`.
pub fn wait_until(now: i64, deadline: i128) -> (millis: u64)
    ensures
        millis == clamped_wait(now as int, deadline as int),
{
    if deadline <= now as i128 {
        0
    } else if deadline > 0x7fff_ffff_ffff_ffff_ffff_ffff {
        u64::MAX
    } else {
        let span: i128 = deadline - now as i128;
        if span > u64::MAX as i128 {
            u64::MAX
        } else {
            span as u64
        }
    }
}

/// The coarse wait before an entry.
pub fn coarse_wait(target: i64, now: i64) -> (millis: u64)
    ensures
        millis == clamped_wait(now as int, coarse_deadline(target as int)),
{
    wait_until(now, target as i128 - 2000)
}

/// The wait before the probe.
pub fn probe_wait(target: i64, now: i64) -> (millis: u64)
    ensures
        millis == clamped_wait(now as int, probe_deadline(target as int)),
{
    wait_until(now, target as i128 - 1000)
}

/// The drift of a probe that was posted at `probe_posted`, in milliseconds.
pub fn measured_drift(target: i64, probe_posted: i64) -> (millis: i128)
    ensures
        millis == drift(target as int, probe_posted as int),
{
    target as i128 - 1000 - probe_posted as i128
}

/// The wait before the message, corrected by the drift of the probe.
pub fn corrected_wait(target: i64, probe_posted: i64, now: i64) -> (millis: u64)
    ensures
        millis == clamped_wait(
            now as int,
            corrected_deadline(target as int, probe_posted as int),
        ),
{
    wait_until(now, target as i128 + measured_drift(target, probe_posted))
}

/// Where the runner stands.
#[derive(Clone, Copy, Debug, PartialEq, Eq, Structural)]
pub enum Phase {
    /// Nothing has begun.
    Ready,
    /// The coarse wait of the current entry runs.
    Idle,
    /// The wait for the time of the probe runs.
    WaitingForTest,
    /// The probe is on its way.
    Probing,
    /// The probe was posted at `probe_posted`; its deletion is on its way.
    TestPosted { probe_posted: i64 },
    /// The corrected wait runs.
    WaitingForTarget,
    /// The message is on its way.
    Posting,
    /// The message is posted; the reply that reports its time is on its
    /// way.
    Posted,
    /// Every entry has been posted.
    Finished,
    /// A failure ended the run.
    Aborted,
}

/// What happened since the last action.
#[derive(Clone, Copy, Debug, PartialEq, Eq, Structural)]
pub enum Event {
    /// The run begins.
    Start,
    /// The sleep is over.
    Woke,
    /// The post was created under this identifier.
    Created { identifier: i64 },
    /// The deletion or the reply went through.
    Completed,
    /// The call failed.
    Failed { error: TransportError },
}

/// Why a run was aborted.
#[derive(Clone, Copy, Debug, PartialEq, Eq, Structural)]
pub enum AbortReason {
    /// A call to the remote service failed.
    Transport(TransportError),
    /// An event came that the phase does not expect.
    OutOfTurn,
    /// The time of the post cannot be shown as a wall clock.
    NoWallClock,
}

/// What the caller shall do next.
#[derive(Clone, Debug, PartialEq, Eq)]
pub enum Action {
    /// Sleep for so many milliseconds, then report `Event::Woke`.
    Sleep { millis: u64 },
    /// Send the request and report `Event::Created` with the identifier
    /// that the response holds.
    Create { request: Request },
    /// Send the request and report `Event::Completed`.
    Delete { request: Request },
    /// Send the request and report `Event::Completed`.
    Reply { request: Request },
    /// The schedule is done.
    Finish,
    /// Stop: the run has failed.
    Abort { reason: AbortReason },
}

/// An action with its request as bytes.
pub enum ActionText {
    Sleep { millis: int },
    Create { request: RequestText },
    Delete { request: RequestText },
    Reply { request: RequestText },
    Finish,
    Abort { reason: AbortReason },
}

impl View for Action {
    type V = ActionText;

    open spec fn view(&self) -> ActionText {
        match *self {
            Action::Sleep { millis } => ActionText::Sleep { millis: millis as int },
            Action::Create { request } => ActionText::Create { request: request@ },
            Action::Delete { request } => ActionText::Delete { request: request@ },
            Action::Reply { request } => ActionText::Reply { request: request@ },
            Action::Finish => ActionText::Finish,
            Action::Abort { reason } => ActionText::Abort { reason },
        }
    }
}

/// What the machine reads of the world at a step.
#[derive(Clone, Debug, PartialEq, Eq)]
pub struct Readings {
    /// The time, in milliseconds since the Unix epoch.
    pub now: i64,
    /// The nonce for a request made at this step.
    pub nonce: String,
    /// The local wall clock at the time that the identifier of the event
    /// holds, where the event holds one and the wall clock can show it.
    pub wall_clock: Option<WallClock>,
}

/// The state of a run: the credential, the entries in the order in which
/// they are posted, the entry at work and the phase it is in.
#[derive(Clone, Debug, PartialEq, Eq)]
pub struct Runner {
    pub credential: Credential,
    pub entries: Vec<ScheduleEntry>,
    pub index: usize,
    pub phase: Phase,
}

/// What a step leads to.
pub struct Outcome {
    pub index: int,
    pub phase: Phase,
    pub action: ActionText,
}

/// The message of the probe.
pub open spec fn probe_message() -> Seq<u8> {
    encode_utf8("test"@)
}

/// Turning to the entry at `index`: its coarse wait begins, or the run is
/// finished where there is no such entry.
pub open spec fn begin_entry(entries: Seq<ScheduleEntry>, index: int, now: int) -> Outcome {
    if 0 <= index < entries.len() {
        Outcome {
            index,
            phase: Phase::Idle,
            action: ActionText::Sleep {
                millis: clamped_wait(now, coarse_deadline(entries[index].target as int)),
            },
        }
    } else {
        Outcome { index, phase: Phase::Finished, action: ActionText::Finish }
    }
}

/// The end of a run by a failure.
pub open spec fn aborted(index: int, reason: AbortReason) -> Outcome {
    Outcome { index, phase: Phase::Aborted, action: ActionText::Abort { reason } }
}

/// What a step of an entry at work leads to.
pub open spec fn entry_outcome(runner: Runner, event: Event, readings: Readings) -> Outcome {
    let index = runner.index as int;
    let entry = runner.entries@[index];
    let target = entry.target as int;
    let now = readings.now as int;
    let nonce = encode_utf8(readings.nonce@);
    let stamp = seconds_of(now);
    let out_of_turn = aborted(index, AbortReason::OutOfTurn);
    match runner.phase {
        Phase::Idle => if event is Woke {
            Outcome {
                index,
                phase: Phase::WaitingForTest,
                action: ActionText::Sleep { millis: clamped_wait(now, probe_deadline(target)) },
            }
        } else {
            out_of_turn
        },
        Phase::WaitingForTest => if event is Woke {
            Outcome {
                index,
                phase: Phase::Probing,
                action: ActionText::Create {
                    request: create_request_text(probe_message(), runner.credential, nonce, stamp),
                },
            }
        } else {
            out_of_turn
        },
        Phase::Probing => match event {
            Event::Created { identifier } => Outcome {
                index,
                phase: Phase::TestPosted {
                    probe_posted: identifier_millis(identifier as int) as i64,
                },
                action: ActionText::Delete {
                    request: delete_request_text(
                        identifier as int,
                        runner.credential,
                        nonce,
                        stamp,
                    ),
                },
            },
            _ => out_of_turn,
        },
        Phase::TestPosted { probe_posted } => if event is Completed {
            Outcome {
                index,
                phase: Phase::WaitingForTarget,
                action: ActionText::Sleep {
                    millis: clamped_wait(now, corrected_deadline(target, probe_posted as int)),
                },
            }
        } else {
            out_of_turn
        },
        Phase::WaitingForTarget => if event is Woke {
            Outcome {
                index,
                phase: Phase::Posting,
                action: ActionText::Create {
                    request: create_request_text(
                        encode_utf8(entry.message@),
                        runner.credential,
                        nonce,
                        stamp,
                    ),
                },
            }
        } else {
            out_of_turn
        },
        Phase::Posting => match event {
            Event::Created { identifier } => if !entry.report {
                begin_entry(runner.entries@, index + 1, now)
            } else {
                match readings.wall_clock {
                    Some(posted) => Outcome {
                        index,
                        phase: Phase::Posted,
                        action: ActionText::Reply {
                            request: reply_request_text(
                                identifier as int,
                                wall_clock_text(posted),
                                runner.credential,
                                nonce,
                                stamp,
                            ),
                        },
                    },
                    None => aborted(index, AbortReason::NoWallClock),
                }
            },
            _ => out_of_turn,
        },
        Phase::Posted => if event is Completed {
            begin_entry(runner.entries@, index + 1, now)
        } else {
            out_of_turn
        },
        _ => out_of_turn,
    }
}

/// What a step leads to: the entry at work, the phase, and the action for
/// the caller.
pub open spec fn step_outcome(runner: Runner, event: Event, readings: Readings) -> Outcome {
    let index = runner.index as int;
    match runner.phase {
        Phase::Finished => Outcome { index, phase: Phase::Finished, action: ActionText::Finish },
        Phase::Aborted => aborted(index, AbortReason::OutOfTurn),
        _ => match event {
            Event::Failed { error } => aborted(index, AbortReason::Transport(error)),
            _ => if runner.phase is Ready {
                if event is Start {
                    begin_entry(runner.entries@, 0, readings.now as int)
                } else {
                    aborted(index, AbortReason::OutOfTurn)
                }
            } else if index >= runner.entries@.len() {
                aborted(index, AbortReason::OutOfTurn)
            } else {
                entry_outcome(runner, event, readings)
            },
        },
    }
}

/// True of the step that completes the cycle of the entry at work: its
/// message has been posted and no report is asked for, or the reply that
/// reports has gone through.
pub open spec fn completes_cycle(runner: Runner, event: Event) -> bool {
    &&& runner.index < runner.entries@.len()
    &&& {
        ||| runner.phase is Posting && event is Created && !runner.entries@[runner.index
            as int].report
        ||| runner.phase is Posted && event is Completed
    }
}

/// True of the step that begins a run.
pub open spec fn begins_run(runner: Runner, event: Event) -> bool {
    runner.phase is Ready && event is Start
}

/// Entries are worked in turn: the coarse wait of an entry begins only at
/// the start of the run, for the first entry, or with the step that
/// completes the cycle of the entry before it. No other step changes the
/// entry at work.
pub proof fn lemma_entries_in_turn(runner: Runner, event: Event, readings: Readings)
    ensures
        ({
            let next = step_outcome(runner, event, readings);
            let first_begins = begins_run(runner, event) && next.index == 0;
            let next_begins = completes_cycle(runner, event) && next.index == runner.index + 1;
            &&& next.phase is Idle ==> first_begins || next_begins
            &&& next.index != runner.index ==> first_begins || next_begins
        }),
{
}

/// With a target time in the past the runner does not wait: the coarse wait
/// and the wait for the probe are sleeps of no time.
pub proof fn lemma_past_target_proceeds(runner: Runner, event: Event, readings: Readings)
    requires
        runner.index < runner.entries@.len(),
        runner.entries@[runner.index as int].target <= readings.now,
    ensures
        runner.phase is Idle && event is Woke ==> step_outcome(runner, event, readings).action
            == (ActionText::Sleep { millis: 0 }),
        runner.phase is Ready && event is Start && runner.index == 0 ==> step_outcome(
            runner,
            event,
            readings,
        ).action == (ActionText::Sleep { millis: 0 }),
{
}

impl Runner {
    /// A run of `entries`, in their order, that has not begun.
    pub fn new(credential: Credential, entries: Vec<ScheduleEntry>) -> (runner: Runner)
        ensures
            runner.credential == credential,
            runner.entries == entries,
            runner.index == 0,
            runner.phase == Phase::Ready,
    {
        Runner { credential, entries, index: 0, phase: Phase::Ready }
    }

    /// Ends the run by a failure.
    fn abort(&mut self, reason: AbortReason) -> (action: Action)
        ensures
            final(self).credential == old(self).credential,
            final(self).entries == old(self).entries,
            final(self).index == old(self).index,
            final(self).phase == Phase::Aborted,
            action@ == aborted(old(self).index as int, reason).action,
    {
        self.phase = Phase::Aborted;
        Action::Abort { reason }
    }

    /// Turns to the entry at `index`.
    fn begin(&mut self, index: usize, now: i64) -> (action: Action)
        ensures
            final(self).credential == old(self).credential,
            final(self).entries == old(self).entries,
            final(self).index == begin_entry(old(self).entries@, index as int, now as int).index,
            final(self).phase == begin_entry(old(self).entries@, index as int, now as int).phase,
            action@ == begin_entry(old(self).entries@, index as int, now as int).action,
    {
        self.index = index;
        if index < self.entries.len() {
            self.phase = Phase::Idle;
            Action::Sleep { millis: coarse_wait(self.entries[index].target, now) }
        } else {
            self.phase = Phase::Finished;
            Action::Finish
        }
    }

    /// The coarse wait is over: the wait for the time of the probe begins.
    fn await_probe_time(&mut self, readings: &Readings) -> (action: Action)
        requires
            old(self).index < old(self).entries@.len(),
            old(self).phase is Idle,
        ensures
            final(self).credential == old(self).credential,
            final(self).entries == old(self).entries,
            final(self).index == entry_outcome(*old(self), Event::Woke, *readings).index,
            final(self).phase == entry_outcome(*old(self), Event::Woke, *readings).phase,
            action@ == entry_outcome(*old(self), Event::Woke, *readings).action,
    {
        let target = self.entries[self.index].target;
        self.phase = Phase::WaitingForTest;
        Action::Sleep { millis: probe_wait(target, readings.now) }
    }

    /// The time of the probe has come: the probe is posted.
    fn post_probe(&mut self, readings: &Readings) -> (action: Action)
        requires
            old(self).index < old(self).entries@.len(),
            old(self).phase is WaitingForTest,
        ensures
            final(self).credential == old(self).credential,
            final(self).entries == old(self).entries,
            final(self).index == entry_outcome(*old(self), Event::Woke, *readings).index,
            final(self).phase == entry_outcome(*old(self), Event::Woke, *readings).phase,
            action@ == entry_outcome(*old(self), Event::Woke, *readings).action,
    {
        let stamp = whole_seconds(readings.now);
        self.phase = Phase::Probing;
        Action::Create {
            request: create_request("test", &self.credential, readings.nonce.as_str(), stamp),
        }
    }

    /// The probe is posted: its time is taken and it is deleted.
    fn delete_probe(&mut self, identifier: i64, readings: &Readings) -> (action: Action)
        requires
            old(self).index < old(self).entries@.len(),
            old(self).phase is Probing,
        ensures
            final(self).credential == old(self).credential,
            final(self).entries == old(self).entries,
            final(self).index == entry_outcome(*old(self), (Event::Created { identifier }), *readings).index,
            final(self).phase == entry_outcome(*old(self), (Event::Created { identifier }), *readings).phase,
            action@ == entry_outcome(*old(self), (Event::Created { identifier }), *readings).action,
    {
        let stamp = whole_seconds(readings.now);
        self.phase = Phase::TestPosted { probe_posted: decode_time(identifier) };
        Action::Delete {
            request: delete_request(identifier, &self.credential, readings.nonce.as_str(), stamp),
        }
    }

    /// The probe is deleted: the corrected wait begins.
    fn await_corrected_time(&mut self, probe_posted: i64, readings: &Readings) -> (action: Action)
        requires
            old(self).index < old(self).entries@.len(),
            old(self).phase == (Phase::TestPosted { probe_posted }),
        ensures
            final(self).credential == old(self).credential,
            final(self).entries == old(self).entries,
            final(self).index == entry_outcome(*old(self), Event::Completed, *readings).index,
            final(self).phase == entry_outcome(*old(self), Event::Completed, *readings).phase,
            action@ == entry_outcome(*old(self), Event::Completed, *readings).action,
    {
        let target = self.entries[self.index].target;
        self.phase = Phase::WaitingForTarget;
        Action::Sleep { millis: corrected_wait(target, probe_posted, readings.now) }
    }

    /// The corrected time has come: the message is posted.
    fn post_message(&mut self, readings: &Readings) -> (action: Action)
        requires
            old(self).index < old(self).entries@.len(),
            old(self).phase is WaitingForTarget,
        ensures
            final(self).credential == old(self).credential,
            final(self).entries == old(self).entries,
            final(self).index == entry_outcome(*old(self), Event::Woke, *readings).index,
            final(self).phase == entry_outcome(*old(self), Event::Woke, *readings).phase,
            action@ == entry_outcome(*old(self), Event::Woke, *readings).action,
    {
        let stamp = whole_seconds(readings.now);
        self.phase = Phase::Posting;
        Action::Create {
            request: create_request(
                self.entries[self.index].message.as_str(),
                &self.credential,
                readings.nonce.as_str(),
                stamp,
            ),
        }
    }

    /// The message is posted: its time is reported where the entry asks for
    /// it, and else the next entry has its turn.
    fn report_or_turn(&mut self, identifier: i64, readings: &Readings) -> (action: Action)
        requires
            old(self).index < old(self).entries@.len(),
            old(self).phase is Posting,
        ensures
            final(self).credential == old(self).credential,
            final(self).entries == old(self).entries,
            final(self).index == entry_outcome(*old(self), (Event::Created { identifier }), *readings).index,
            final(self).phase == entry_outcome(*old(self), (Event::Created { identifier }), *readings).phase,
            action@ == entry_outcome(*old(self), (Event::Created { identifier }), *readings).action,
    {
        if !self.entries[self.index].report {
            let count: usize = self.entries.len();
            assert(self.index < count);
            let next: usize = self.index + 1;
            self.begin(next, readings.now)
        } else {
            match readings.wall_clock {
                Some(posted) => {
                    let stamp = whole_seconds(readings.now);
                    let text = format_wall_clock(&posted);
                    self.phase = Phase::Posted;
                    Action::Reply {
                        request: reply_request(
                            identifier,
                            text.as_str(),
                            &self.credential,
                            readings.nonce.as_str(),
                            stamp,
                        ),
                    }
                },
                None => self.abort(AbortReason::NoWallClock),
            }
        }
    }

    /// The reply has gone through: the next entry has its turn.
    fn turn(&mut self, readings: &Readings) -> (action: Action)
        requires
            old(self).index < old(self).entries@.len(),
            old(self).phase is Posted,
        ensures
            final(self).credential == old(self).credential,
            final(self).entries == old(self).entries,
            final(self).index == entry_outcome(*old(self), Event::Completed, *readings).index,
            final(self).phase == entry_outcome(*old(self), Event::Completed, *readings).phase,
            action@ == entry_outcome(*old(self), Event::Completed, *readings).action,
    {
        let count: usize = self.entries.len();
        assert(self.index < count);
        let next: usize = self.index + 1;
        self.begin(next, readings.now)
    }

    /// A step of the entry at work.
    fn step_entry(&mut self, event: Event, readings: &Readings) -> (action: Action)
        requires
            old(self).index < old(self).entries@.len(),
        ensures
            final(self).credential == old(self).credential,
            final(self).entries == old(self).entries,
            final(self).index == entry_outcome(*old(self), event, *readings).index,
            final(self).phase == entry_outcome(*old(self), event, *readings).phase,
            action@ == entry_outcome(*old(self), event, *readings).action,
    {
        match (self.phase, event) {
            (Phase::Idle, Event::Woke) => self.await_probe_time(readings),
            (Phase::WaitingForTest, Event::Woke) => self.post_probe(readings),
            (Phase::Probing, Event::Created { identifier }) => self.delete_probe(
                identifier,
                readings,
            ),
            (Phase::TestPosted { probe_posted }, Event::Completed) => self.await_corrected_time(
                probe_posted,
                readings,
            ),
            (Phase::WaitingForTarget, Event::Woke) => self.post_message(readings),
            (Phase::Posting, Event::Created { identifier }) => self.report_or_turn(
                identifier,
                readings,
            ),
            (Phase::Posted, Event::Completed) => self.turn(readings),
            _ => self.abort(AbortReason::OutOfTurn),
        }
    }

    /// Takes what happened and says what to do next, given the readings of
    /// the clock for this step.
    pub fn step(&mut self, event: Event, readings: &Readings) -> (action: Action)
        ensures
            final(self).credential == old(self).credential,
            final(self).entries == old(self).entries,
            final(self).index == step_outcome(*old(self), event, *readings).index,
            final(self).phase == step_outcome(*old(self), event, *readings).phase,
            action@ == step_outcome(*old(self), event, *readings).action,
    {
        match self.phase {
            Phase::Finished => Action::Finish,
            Phase::Aborted => Action::Abort { reason: AbortReason::OutOfTurn },
            _ => match event {
                Event::Failed { error } => self.abort(AbortReason::Transport(error)),
                _ => {
                    if matches!(self.phase, Phase::Ready) {
                        if matches!(event, Event::Start) {
                            self.begin(0, readings.now)
                        } else {
                            self.abort(AbortReason::OutOfTurn)
                        }
                    } else if self.index >= self.entries.len() {
                        self.abort(AbortReason::OutOfTurn)
                    } else {
                        self.step_entry(event, readings)
                    }
                },
            },
        }
    }

    /// Takes what happened and says what to do next, reading the machine's
    /// clock and time zone for this step: the nonce is the time in seconds,
    /// and the wall clock is the local one at the time that the identifier
    /// of the event holds.
    pub fn advance(&mut self, event: Event) -> (action: Action)
        ensures
            final(self).credential == old(self).credential,
            final(self).entries == old(self).entries,
            exists|readings: Readings|
                read_for(event, readings) && (#[trigger] step_outcome(
                    *old(self),
                    event,
                    readings,
                )) == (Outcome {
                    index: final(self).index as int,
                    phase: final(self).phase,
                    action: action@,
                }),
    {
        let readings = read_world(event);
        let action = self.step(event, &readings);
        proof {
            let next = step_outcome(*old(self), event, readings);
            assert(next == (Outcome {
                index: self.index as int,
                phase: self.phase,
                action: action@,
            }));
        }
        action
    }
}

/// What holds of the readings that `read_world` takes for `event`: the
/// nonce is the numeral of the time in seconds, and the wall clock is what
/// a time zone shows at the time that the identifier of the event holds, with
/// none for an event without an identifier.
pub open spec fn read_for(event: Event, readings: Readings) -> bool {
    &&& encode_utf8(readings.nonce@) == decimal_text(seconds_of(readings.now as int))
    &&& match event {
        Event::Created { identifier } => shown_locally_at(
            identifier_millis(identifier as int) as i64,
            readings.wall_clock,
        ),
        _ => readings.wall_clock is None,
    }
    &&& readings.wall_clock matches Some(clock) ==> clock.wf()
}

/// Reads the machine's clock and time zone for a step at which `event` is
/// taken: the time, the nonce, and for an event with an identifier the local
/// wall clock at the time that the identifier holds.
pub fn read_world(event: Event) -> (readings: Readings)
    ensures
        read_for(event, readings),
{
    let now = now_millis();
    let mut digits: Vec<u8> = Vec::new();
    append_decimal(&mut digits, whole_seconds(now));
    proof {
        lemma_decimal_text_ascii(seconds_of(now as int));
        assert(digits@ =~= decimal_text(seconds_of(now as int)));
    }
    let wall_clock = match event {
        Event::Created { identifier } => local_wall_clock(decode_time(identifier)),
        _ => None,
    };
    Readings { now, nonce: text_from_ascii(digits), wall_clock }
}

} // verus!
