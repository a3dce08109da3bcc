//! The read loop as a state machine.
//!
//! A session begins by connecting to its port. Once the port is open it
//! streams: it asks for a read, takes in what the read brought, and hands
//! out one write for every line that became complete, each stamped with the
//! time at which it is handed out. A read that times out is the idle case
//! and passes in silence. Any other failed read is reported and the session
//! reads on. A port or an output file that cannot be opened ends the
//! session: it asks for the process to end with a failure status.
//!
//! The session decides; the caller acts. Every [`Action`] but
//! [`Action::Exit`] is answered with the [`Event`] that tells how it went,
//! and [`Session::step`] turns that event into the next action.

use crate::clock::read_local_clock;
use crate::clock::ClockReading;
use crate::lines::first_newline;
use crate::lines::LineReassembler;
use crate::sink::plan_writes;
use crate::sink::planned_writes;
use crate::sink::record_bytes;
use crate::sink::stamp_line;
use crate::sink::PlannedWrite;
use crate::sink::SinkWrite;
use crate::text::decimal_text;
use crate::text::option_view;
use crate::text::push_decimal;
use crate::timestamp::is_timestamp_shape;
use crate::timestamp::lemma_wall_clock_timestamp_shape;
use crate::timestamp::timestamp_body;
use crate::timestamp::timestamp_text;
use vstd::prelude::*;
use vstd::string::*;

verus! {

/// How long one read may wait for data, in milliseconds.
pub const READ_TIMEOUT_MS: u64 = 10;

/// How many bytes one read may bring at most.
pub const READ_CAPACITY: usize = 1000;

/// The exit status of a session that failed.
pub const FAILURE_STATUS: i32 = 1;

/// Where a session stands.
#[derive(Clone, Copy, Debug, PartialEq, Eq, Structural)]
pub enum Phase {
    /// The port is not open yet.
    Connecting,
    /// The port is open; reads and writes take turns.
    Streaming,
    /// The port or the output file could not be opened. Nothing follows but
    /// the end of the process.
    Failed,
}

/// What happened when the caller carried out the last action.
#[derive(Debug, PartialEq, Eq)]
pub enum Event {
    /// The port is open.
    PortOpened,
    /// The port could not be opened.
    PortOpenFailed { cause: String },
    /// A read succeeded and brought these bytes, possibly none.
    Data { bytes: Vec<u8> },
    /// A read brought nothing within the timeout.
    TimedOut,
    /// A read failed for another reason than the timeout.
    ReadFailed { cause: String },
    /// An announcement, a report or the writes of a record were carried out.
    Done,
    /// The output file could not be opened for appending.
    TargetOpenFailed { cause: String },
}

/// An [`Event`] with its texts and bytes as sequences.
pub enum EventView {
    PortOpened,
    PortOpenFailed { cause: Seq<char> },
    Data { bytes: Seq<u8> },
    TimedOut,
    ReadFailed { cause: Seq<char> },
    Done,
    TargetOpenFailed { cause: Seq<char> },
}

impl View for Event {
    type V = EventView;

    open spec fn view(&self) -> EventView {
        match self {
            Event::PortOpened => EventView::PortOpened,
            Event::PortOpenFailed { cause } => EventView::PortOpenFailed { cause: cause@ },
            Event::Data { bytes } => EventView::Data { bytes: bytes@ },
            Event::TimedOut => EventView::TimedOut,
            Event::ReadFailed { cause } => EventView::ReadFailed { cause: cause@ },
            Event::Done => EventView::Done,
            Event::TargetOpenFailed { cause } => EventView::TargetOpenFailed { cause: cause@ },
        }
    }
}

/// What the caller is to do next.
#[derive(Debug, PartialEq, Eq)]
pub enum Action {
    /// Open the port at `path` with speed `baud` and a read timeout of
    /// `timeout_ms` milliseconds. Answer with [`Event::PortOpened`] or
    /// [`Event::PortOpenFailed`].
    OpenPort { path: String, baud: u32, timeout_ms: u64 },
    /// Print `text` as a line on the console. Answer with [`Event::Done`].
    Announce { text: String },
    /// Read at most `capacity` bytes from the port. Answer with
    /// [`Event::Data`], [`Event::TimedOut`] or [`Event::ReadFailed`].
    Read { capacity: usize },
    /// Carry out `writes` in their order. Answer with [`Event::Done`], or
    /// with [`Event::TargetOpenFailed`] when the output file cannot be
    /// opened.
    Write { writes: Vec<SinkWrite> },
    /// Print `diagnostic` as a line on the diagnostic output. Answer with
    /// [`Event::Done`].
    Report { diagnostic: String },
    /// Print `diagnostic` as a line on the diagnostic output and end the
    /// process with `status`.
    Exit { status: i32, diagnostic: String },
}

/// An [`Action`] with its texts and bytes as sequences.
pub enum ActionView {
    OpenPort { path: Seq<char>, baud: u32, timeout_ms: u64 },
    Announce { text: Seq<char> },
    Read { capacity: usize },
    Write { writes: Seq<PlannedWrite> },
    Report { diagnostic: Seq<char> },
    Exit { status: i32, diagnostic: Seq<char> },
}

impl View for Action {
    type V = ActionView;

    open spec fn view(&self) -> ActionView {
        match self {
            Action::OpenPort { path, baud, timeout_ms } => ActionView::OpenPort {
                path: path@,
                baud: *baud,
                timeout_ms: *timeout_ms,
            },
            Action::Announce { text } => ActionView::Announce { text: text@ },
            Action::Read { capacity } => ActionView::Read { capacity: *capacity },
            Action::Write { writes } => ActionView::Write { writes: writes.deep_view() },
            Action::Report { diagnostic } => ActionView::Report { diagnostic: diagnostic@ },
            Action::Exit { status, diagnostic } => ActionView::Exit {
                status: *status,
                diagnostic: diagnostic@,
            },
        }
    }
}

/// The state of a session as plain values.
pub struct SessionView {
    /// Where the session stands.
    pub phase: Phase,
    /// The path of the port.
    pub port: Seq<char>,
    /// The speed of the port.
    pub baud: u32,
    /// The path of the output file, if one is configured.
    pub target: Option<Seq<char>>,
    /// The bytes that were read and have not left as part of a line.
    pub held: Seq<u8>,
    /// The diagnostic of the failure that ended the session; empty until
    /// then.
    pub failure: Seq<char>,
}

/// The line that is printed once the port is open.
pub open spec fn banner_text(port: Seq<char>, baud: u32) -> Seq<char> {
    "Receiving data on "@ + port + " at "@ + decimal_text(baud as nat) + " baud:"@
}

/// The diagnostic for a port or a file that could not be opened. It names
/// the path and the cause.
pub open spec fn open_failure_text(path: Seq<char>, cause: Seq<char>) -> Seq<char> {
    "Failed to open \""@ + path + "\". Error: "@ + cause
}

/// The action that asks for the port of `s` to be opened.
pub open spec fn open_port_action(s: SessionView) -> ActionView {
    ActionView::OpenPort { path: s.port, baud: s.baud, timeout_ms: READ_TIMEOUT_MS }
}

/// What a step decides before any clock is read: an action, or a line that
/// is to be stamped and written.
pub enum Decision {
    Act(ActionView),
    Emit(Seq<u8>),
}

/// The session fails over `path`: it remembers the diagnostic and asks for
/// the process to end.
pub open spec fn fail_model(s: SessionView, path: Seq<char>, cause: Seq<char>) -> (
    SessionView,
    Decision,
) {
    let diagnostic = open_failure_text(path, cause);
    (
        SessionView { phase: Phase::Failed, failure: diagnostic, ..s },
        Decision::Act(ActionView::Exit { status: FAILURE_STATUS, diagnostic }),
    )
}

/// The streaming session goes on: the first complete line in the buffer
/// leaves it to be written; without one, the next read is due.
pub open spec fn proceed_model(s: SessionView) -> (SessionView, Decision) {
    match first_newline(s.held) {
        Some(i) => (
            SessionView { held: s.held.skip(i + 1), ..s },
            Decision::Emit(s.held.take(i + 1)),
        ),
        None => (s, Decision::Act(ActionView::Read { capacity: READ_CAPACITY })),
    }
}

/// What the session `s` decides on the event `e`, and the state it is in
/// afterwards.
///
/// While connecting, the opened port starts the streaming with an
/// announcement, a failure to open it ends the session, and anything else
/// asks for the port again. While streaming, data joins the buffer and the
/// session goes on; a timeout asks for the next read and nothing else; a
/// failed read is reported; a failure to open the configured output file
/// ends the session; anything else lets the session go on. A failed session
/// asks for the end of the process, whatever comes.
pub open spec fn decide_model(s: SessionView, e: EventView) -> (SessionView, Decision) {
    match s.phase {
        Phase::Connecting => match e {
            EventView::PortOpened => (
                SessionView { phase: Phase::Streaming, ..s },
                Decision::Act(ActionView::Announce { text: banner_text(s.port, s.baud) }),
            ),
            EventView::PortOpenFailed { cause } => fail_model(s, s.port, cause),
            _ => (s, Decision::Act(open_port_action(s))),
        },
        Phase::Streaming => match e {
            EventView::Data { bytes } => proceed_model(SessionView { held: s.held + bytes, ..s }),
            EventView::TimedOut => (s, Decision::Act(ActionView::Read { capacity: READ_CAPACITY })),
            EventView::ReadFailed { cause } => (
                s,
                Decision::Act(ActionView::Report { diagnostic: cause }),
            ),
            EventView::TargetOpenFailed { cause } => match s.target {
                Some(path) => fail_model(s, path, cause),
                None => proceed_model(s),
            },
            _ => proceed_model(s),
        },
        Phase::Failed => (
            s,
            Decision::Act(ActionView::Exit { status: FAILURE_STATUS, diagnostic: s.failure }),
        ),
    }
}

/// The action that carries out the decision `d` at the clock reading `now`.
/// A line that is to be written becomes a record stamped with `now`, for
/// the console and, if `mirror` is set, for the output file.
pub open spec fn action_model(d: Decision, mirror: bool, now: ClockReading) -> ActionView {
    match d {
        Decision::Act(action) => action,
        Decision::Emit(line) => ActionView::Write {
            writes: planned_writes(record_bytes(timestamp_text(now), line), mirror),
        },
    }
}

/// One step of the session: the state after the event `e` and the action
/// that follows it, when the clock reads `now`.
pub open spec fn step_model(s: SessionView, e: EventView, now: ClockReading) -> (
    SessionView,
    ActionView,
) {
    let (next, decision) = decide_model(s, e);
    (next, action_model(decision, s.target is Some, now))
}

/// A timeout is silent. A streaming session that learns of a timed-out
/// read stays exactly as it was: no line leaves the buffer, nothing is
/// written, announced or reported, and the action that follows is the next
/// read.
pub proof fn lemma_timeout_is_silent(s: SessionView, now: ClockReading)
    requires
        s.phase == Phase::Streaming,
    ensures
        step_model(s, EventView::TimedOut, now) == (
            s,
            ActionView::Read { capacity: READ_CAPACITY },
        ),
{
}

/// A failed read does not end the session. A streaming session reports the
/// cause, keeps its state, and stays streaming.
pub proof fn lemma_read_failure_is_reported(s: SessionView, cause: Seq<char>, now: ClockReading)
    requires
        s.phase == Phase::Streaming,
    ensures
        step_model(s, EventView::ReadFailed { cause }, now) == (
            s,
            ActionView::Report { diagnostic: cause },
        ),
{
}

/// The diagnostic of a failure to open names the path: the path stands in
/// it between the quotation marks, behind the sixteen characters of
/// `Failed to open "`, and the cause stands at its end.
pub proof fn lemma_open_failure_names_path(path: Seq<char>, cause: Seq<char>)
    ensures
        open_failure_text(path, cause).len() == 26 + path.len() + cause.len(),
        open_failure_text(path, cause).subrange(16, 16 + path.len() as int) == path,
        open_failure_text(path, cause).skip(26 + path.len() as int) == cause,
{
    reveal_strlit("Failed to open \"");
    reveal_strlit("\". Error: ");
    let text = open_failure_text(path, cause);
    assert(text.subrange(16, 16 + path.len() as int) =~= path);
    assert(text.skip(26 + path.len() as int) =~= cause);
}

/// A port that cannot be opened is fatal. A connecting session that learns
/// so fails, and asks for the process to end with status 1 and a
/// diagnostic that names the port's path and the cause.
pub proof fn lemma_port_open_failure_is_fatal(s: SessionView, cause: Seq<char>, now: ClockReading)
    requires
        s.phase == Phase::Connecting,
    ensures
        step_model(s, EventView::PortOpenFailed { cause }, now).0.phase == Phase::Failed,
        step_model(s, EventView::PortOpenFailed { cause }, now).1 == (ActionView::Exit {
            status: 1,
            diagnostic: open_failure_text(s.port, cause),
        }),
{
}

/// An output file that cannot be opened is fatal. A streaming session with
/// a configured output file that learns so fails, and asks for the process
/// to end with status 1 and a diagnostic that names the file's path and
/// the cause.
pub proof fn lemma_target_open_failure_is_fatal(
    s: SessionView,
    path: Seq<char>,
    cause: Seq<char>,
    now: ClockReading,
)
    requires
        s.phase == Phase::Streaming,
        s.target == Some(path),
    ensures
        step_model(s, EventView::TargetOpenFailed { cause }, now).0.phase == Phase::Failed,
        step_model(s, EventView::TargetOpenFailed { cause }, now).1 == (ActionView::Exit {
            status: 1,
            diagnostic: open_failure_text(path, cause),
        }),
{
}

/// Failure is final. A failed session stays failed whatever comes, and
/// asks again for the process to end with status 1.
pub proof fn lemma_failure_is_final(s: SessionView, e: EventView, now: ClockReading)
    requires
        s.phase == Phase::Failed,
    ensures
        step_model(s, e, now) == (s, ActionView::Exit { status: 1, diagnostic: s.failure }),
{
}

/// The phases are passed in one direction. A step keeps the phase, or
/// leads from connecting to streaming, or from connecting or streaming to
/// failed. Port, speed and output file never change.
pub proof fn lemma_phases_advance(s: SessionView, e: EventView, now: ClockReading)
    ensures
        ({
            let next = step_model(s, e, now).0;
            &&& next.port == s.port
            &&& next.baud == s.baud
            &&& next.target == s.target
            &&& (next.phase == s.phase || next.phase == Phase::Failed || (s.phase
                == Phase::Connecting && next.phase == Phase::Streaming))
            &&& (s.phase == Phase::Failed ==> next.phase == Phase::Failed)
        }),
{
}

/// The bytes that `e` brings into a session: those of a successful read,
/// none otherwise.
pub open spec fn incoming(e: EventView) -> Seq<u8> {
    match e {
        EventView::Data { bytes } => bytes,
        _ => Seq::empty(),
    }
}

/// What is written when a streaming session takes a step. If a line leaves
/// the buffer, it is the first complete line of the bytes held and brought
/// in, and what stays held is the rest behind it, so that no byte is lost,
/// doubled or moved. The line is written once to the console and, if an
/// output file is configured, once to the file, with the same bytes: the
/// timestamp for `now` and the line untouched. If nothing is written, all
/// bytes held and brought in are still held.
pub proof fn lemma_step_writes_one_line(s: SessionView, e: EventView, now: ClockReading)
    requires
        s.phase == Phase::Streaming,
    ensures
        ({
            let (next, action) = step_model(s, e, now);
            let bytes = s.held + incoming(e);
            match action {
                ActionView::Write { writes } => {
                    &&& first_newline(bytes) matches Some(i)
                    &&& crate::lines::is_line(bytes.take(i + 1))
                    &&& next.held == bytes.skip(i + 1)
                    &&& bytes.take(i + 1) + next.held == bytes
                    &&& writes == planned_writes(
                        record_bytes(timestamp_text(now), bytes.take(i + 1)),
                        s.target is Some,
                    )
                    &&& writes.len() == if s.target is Some { 2int } else { 1int }
                    &&& forall|k: int| 0 <= k < writes.len() ==> (#[trigger] writes[k]).bytes
                        == writes[0].bytes
                },
                _ => next.held == bytes,
            }
        }),
{
    let bytes = s.held + incoming(e);
    assert(s.held + Seq::<u8>::empty() =~= s.held);
    crate::lines::lemma_first_newline(bytes);
    match first_newline(bytes) {
        Some(i) => {
            assert(bytes.take(i + 1) + bytes.skip(i + 1) =~= bytes);
            crate::sink::lemma_sinks_receive_same_bytes(
                record_bytes(timestamp_text(now), bytes.take(i + 1)),
                s.target is Some,
            );
        },
        None => {},
    }
}

/// Reads follow writes. When a streaming session asks for a read after
/// taking in data or the completion of an action, no complete line is left
/// in its buffer: every line that has arrived was handed out before.
pub proof fn lemma_reads_follow_writes(s: SessionView, e: EventView, now: ClockReading)
    requires
        s.phase == Phase::Streaming,
        e is Data || e is Done,
        step_model(s, e, now).1 is Read,
    ensures
        first_newline(step_model(s, e, now).0.held) is None,
        step_model(s, e, now).0.held == s.held + incoming(e),
{
    assert(s.held + Seq::<u8>::empty() =~= s.held);
}

/// The run of a session that takes in `e` and then answers every write
/// with [`Event::Done`] until another action than a write is asked: the
/// state at the end, and the actions in their order, the last one
/// included. The step number `k` of the run reads the clock as
/// `clocks(k)`, so every line has a reading of its own.
pub open spec fn run_model(
    s: SessionView,
    e: EventView,
    clocks: spec_fn(nat) -> ClockReading,
    k: nat,
) -> (SessionView, Seq<ActionView>)
    decreases s.held.len() + incoming(e).len(),
    via run_model_terminates
{
    let (next, action) = step_model(s, e, clocks(k));
    if action is Write {
        let (last, more) = run_model(next, EventView::Done, clocks, k + 1);
        (last, seq![action] + more)
    } else {
        (next, seq![action])
    }
}

#[via_fn]
proof fn run_model_terminates(
    s: SessionView,
    e: EventView,
    clocks: spec_fn(nat) -> ClockReading,
    k: nat,
) {
    if s.phase == Phase::Streaming {
        lemma_step_writes_one_line(s, e, clocks(k));
    }
}

/// The action that writes `line`, stamped with `now`, for a session whose
/// output file is configured or not as `mirror` says.
pub open spec fn write_action(line: Seq<u8>, mirror: bool, now: ClockReading) -> ActionView {
    ActionView::Write { writes: planned_writes(record_bytes(timestamp_text(now), line), mirror) }
}

/// A run hands out the complete lines, all of them and nothing else. When
/// a streaming session takes in data, or the completion of an action, and
/// every write is answered with its completion, the writes that are asked
/// are those of the complete lines of the bytes held and brought in, one
/// write for each line, in the order of the lines, each stamped with the
/// clock reading of its own step. Then a read is asked, and what the
/// session still holds is the unterminated end of those bytes. Nothing
/// else about the session has changed.
pub proof fn lemma_run_hands_out_complete_lines(
    s: SessionView,
    e: EventView,
    clocks: spec_fn(nat) -> ClockReading,
    k: nat,
)
    requires
        s.phase == Phase::Streaming,
        e is Data || e is Done,
    ensures
        ({
            let bytes = s.held + incoming(e);
            let lines = crate::lines::complete_lines(bytes);
            let (last, actions) = run_model(s, e, clocks, k);
            &&& actions.len() == lines.len() + 1
            &&& forall|j: int|
                0 <= j < lines.len() ==> #[trigger] actions[j] == write_action(
                    lines[j],
                    s.target is Some,
                    clocks((k + j) as nat),
                )
            &&& actions[lines.len() as int] == (ActionView::Read { capacity: READ_CAPACITY })
            &&& last == (SessionView { held: crate::lines::pending_tail(bytes), ..s })
        }),
    decreases s.held.len() + incoming(e).len(),
{
    let bytes = s.held + incoming(e);
    let lines = crate::lines::complete_lines(bytes);
    let (next, action) = step_model(s, e, clocks(k));
    let (last, actions) = run_model(s, e, clocks, k);
    assert(s.held + Seq::<u8>::empty() =~= s.held);
    lemma_step_writes_one_line(s, e, clocks(k));
    crate::lines::lemma_first_newline(bytes);
    match first_newline(bytes) {
        Some(i) => {
            let rest = bytes.skip(i + 1);
            assert(action == write_action(bytes.take(i + 1), s.target is Some, clocks(k)));
            assert(next == (SessionView { held: rest, ..s }));
            assert(next.held + incoming(EventView::Done) =~= rest);
            lemma_run_hands_out_complete_lines(next, EventView::Done, clocks, k + 1);
            let (end, more) = run_model(next, EventView::Done, clocks, k + 1);
            assert(actions == seq![action] + more);
            assert(lines =~= seq![bytes.take(i + 1)] + crate::lines::complete_lines(rest));
            assert forall|j: int| 0 <= j < lines.len() implies #[trigger] actions[j]
                == write_action(lines[j], s.target is Some, clocks((k + j) as nat)) by {
                if j > 0 {
                    assert(actions[j] == more[j - 1]);
                    assert(lines[j] == crate::lines::complete_lines(rest)[j - 1]);
                    assert((k + 1 + (j - 1)) as nat == (k + j) as nat);
                }
            }
            assert(actions[lines.len() as int] == more[lines.len() - 1]);
        },
        None => {
            assert(lines =~= Seq::<Seq<u8>>::empty());
            assert(next == (SessionView { held: bytes, ..s }));
        },
    }
}

/// Builds the line that announces the open port.
pub fn banner(port: &str, baud: u32) -> (text: String)
    ensures
        text@ == banner_text(port@, baud),
{
    let mut text = String::new();
    text.append("Receiving data on ");
    text.append(port);
    text.append(" at ");
    push_decimal(&mut text, baud as u64);
    text.append(" baud:");
    assert(text@ =~= banner_text(port@, baud));
    text
}

/// Builds the diagnostic for the port or file at `path` that could not be
/// opened because of `cause`.
pub fn open_failure_message(path: &str, cause: &str) -> (text: String)
    ensures
        text@ == open_failure_text(path@, cause@),
{
    let mut text = String::new();
    text.append("Failed to open \"");
    text.append(path);
    text.append("\". Error: ");
    text.append(cause);
    assert(text@ =~= open_failure_text(path@, cause@));
    text
}

/// What a step has decided before any clock is read.
enum Pending {
    Act(Action),
    Emit(Vec<u8>),
}

impl View for Pending {
    type V = Decision;

    closed spec fn view(&self) -> Decision {
        match self {
            Pending::Act(action) => Decision::Act(action@),
            Pending::Emit(line) => Decision::Emit(line@),
        }
    }
}

/// One run of the logger on one port, from connecting to failure.
pub struct Session {
    phase: Phase,
    port: String,
    baud: u32,
    target: Option<String>,
    buffer: LineReassembler,
    failure: String,
}

impl View for Session {
    type V = SessionView;

    closed spec fn view(&self) -> SessionView {
        SessionView {
            phase: self.phase,
            port: self.port@,
            baud: self.baud,
            target: option_view(self.target),
            held: self.buffer@,
            failure: self.failure@,
        }
    }
}

impl Session {
    /// A session for the port at `port` with speed `baud`, which mirrors
    /// its records to the file at `target` if one is given. It is
    /// connecting and holds no bytes.
    pub fn new(port: String, baud: u32, target: Option<String>) -> (session: Session)
        ensures
            session@ == (SessionView {
                phase: Phase::Connecting,
                port: port@,
                baud,
                target: option_view(target),
                held: Seq::empty(),
                failure: Seq::empty(),
            }),
    {
        Session {
            phase: Phase::Connecting,
            port,
            baud,
            target,
            buffer: LineReassembler::new(),
            failure: String::new(),
        }
    }

    /// Where the session stands.
    pub fn phase(&self) -> (phase: Phase)
        ensures
            phase == self@.phase,
    {
        self.phase
    }

    /// The bytes that wait for their newline.
    pub fn pending(&self) -> (bytes: &[u8])
        ensures
            bytes@ == self@.held,
    {
        self.buffer.pending()
    }

    /// The first action of a session: to open its port.
    pub fn start(&self) -> (action: Action)
        ensures
            action@ == open_port_action(self@),
    {
        Action::OpenPort { path: self.port.clone(), baud: self.baud, timeout_ms: READ_TIMEOUT_MS }
    }

    /// Fails the session over `path` and `cause`.
    fn fail(&mut self, path: String, cause: String) -> (pending: Pending)
        ensures
            (final(self)@, pending@) == fail_model(old(self)@, path@, cause@),
    {
        let diagnostic = open_failure_message(path.as_str(), cause.as_str());
        self.phase = Phase::Failed;
        self.failure = diagnostic.clone();
        Pending::Act(Action::Exit { status: FAILURE_STATUS, diagnostic })
    }

    /// Goes on streaming: takes the next complete line, or asks for a read.
    fn proceed(&mut self) -> (pending: Pending)
        ensures
            (final(self)@, pending@) == proceed_model(old(self)@),
    {
        match self.buffer.next_line() {
            Some(line) => Pending::Emit(line),
            None => Pending::Act(Action::Read { capacity: READ_CAPACITY }),
        }
    }

    /// Takes in `event` and decides what follows, short of reading a clock.
    fn decide(&mut self, event: Event) -> (pending: Pending)
        ensures
            (final(self)@, pending@) == decide_model(old(self)@, event@),
    {
        match self.phase {
            Phase::Connecting => match event {
                Event::PortOpened => {
                    self.phase = Phase::Streaming;
                    Pending::Act(Action::Announce { text: banner(self.port.as_str(), self.baud) })
                },
                Event::PortOpenFailed { cause } => {
                    let path = self.port.clone();
                    self.fail(path, cause)
                },
                _ => Pending::Act(self.start()),
            },
            Phase::Streaming => match event {
                Event::Data { bytes } => {
                    self.buffer.push_chunk(bytes.as_slice());
                    self.proceed()
                },
                Event::TimedOut => Pending::Act(Action::Read { capacity: READ_CAPACITY }),
                Event::ReadFailed { cause } => Pending::Act(Action::Report { diagnostic: cause }),
                Event::TargetOpenFailed { cause } => {
                    let target = self.target.clone();
                    match target {
                        Some(path) => self.fail(path, cause),
                        None => self.proceed(),
                    }
                },
                _ => self.proceed(),
            },
            Phase::Failed => Pending::Act(
                Action::Exit { status: FAILURE_STATUS, diagnostic: self.failure.clone() },
            ),
        }
    }

    /// Turns what was decided into the action for the caller, stamping a
    /// line with `now`.
    fn act(pending: Pending, mirror: bool, now: &ClockReading) -> (action: Action)
        ensures
            action@ == action_model(pending@, mirror, *now),
    {
        match pending {
            Pending::Act(action) => action,
            Pending::Emit(line) => {
                let record = stamp_line(now, line.as_slice());
                Action::Write { writes: plan_writes(record.as_slice(), mirror) }
            },
        }
    }

    /// Takes one step at a given clock reading: takes in `event`, moves to
    /// the next state and returns the action that follows. A line that
    /// leaves the buffer in this step is stamped with `now`.
    pub fn step_at(&mut self, event: Event, now: &ClockReading) -> (action: Action)
        ensures
            (final(self)@, action@) == step_model(old(self)@, event@, *now),
    {
        let mirror = self.target.is_some();
        let pending = self.decide(event);
        Session::act(pending, mirror, now)
    }

    /// Takes one step: takes in `event`, moves to the next state and
    /// returns the action that follows. A line that leaves the buffer in
    /// this step is stamped with the local time of this call; the clock is
    /// not read otherwise. In the years 0 to 9999 the timestamp has the
    /// fixed shape, whatever the instant.
    pub fn step(&mut self, event: Event) -> (action: Action)
        ensures
            exists|now: ClockReading|
                now.is_wall_clock() && (final(self)@, action@) == #[trigger] step_model(
                    old(self)@,
                    event@,
                    now,
                ) && (0 <= now.year <= 9999 ==> is_timestamp_shape(timestamp_body(now))),
    {
        let mirror = self.target.is_some();
        let pending = self.decide(event);
        match pending {
            Pending::Emit(line) => {
                let now = read_local_clock();
                let action = Session::act(Pending::Emit(line), mirror, &now);
                proof {
                    if 0 <= now.year <= 9999 {
                        lemma_wall_clock_timestamp_shape(now);
                    }
                    assert((self@, action@) == step_model(old(self)@, event@, now));
                }
                action
            },
            Pending::Act(action) => {
                let ghost now = ClockReading {
                    year: 1970,
                    month: 1,
                    day: 1,
                    hour: 0,
                    minute: 0,
                    second: 0,
                    millisecond: 0,
                };
                proof {
                    lemma_wall_clock_timestamp_shape(now);
                    assert((self@, action@) == step_model(old(self)@, event@, now));
                }
                action
            },
        }
    }
}

} // verus!
