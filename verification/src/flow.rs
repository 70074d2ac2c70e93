//! Print flows: scripts of steps, and the decisions that carry a printer through
//! them.
//!
//! A flow never talks to the printer. It says what to do next and is told what
//! came of it; so the same decisions serve every transport.

use vstd::prelude::*;

use crate::error::{Error, ErrorModel};
use crate::status;
use crate::status::PrinterStatus;

verus! {

/// What a wait is for.
#[derive(Debug, Clone, Copy, PartialEq, Eq, Structural)]
pub enum WaitKind {
    /// The device to be idle.
    Ready,
    /// The printing station to become active.
    Printing,
    /// The transfer buffer to have room.
    Buffer,
    /// The print to be complete.
    Completion,
}

/// Whether the pause comes before each query (or after each query that did not
/// settle the wait).
pub open spec fn pauses_first(kind: WaitKind) -> bool {
    kind is Buffer || kind is Completion
}

impl WaitKind {
    /// Whether the pause comes before each query.
    fn begins_with_pause(&self) -> (b: bool)
        ensures
            b == pauses_first(*self),
    {
        match self {
            WaitKind::Buffer => true,
            WaitKind::Completion => true,
            _ => false,
        }
    }
}

/// Milliseconds between two queries for buffer space.
pub const BUFFER_POLL_MS: u64 = 20;

/// Milliseconds between two queries for anything else.
pub const POLL_MS: u64 = 100;

/// Milliseconds between two queries.
pub open spec fn poll_interval(kind: WaitKind) -> u64 {
    if kind is Buffer {
        BUFFER_POLL_MS
    } else {
        POLL_MS
    }
}

/// A status that ends the wait for good.
pub open spec fn settles(kind: WaitKind, s: PrinterStatus) -> bool {
    match kind {
        WaitKind::Ready => status::is_idle(s),
        WaitKind::Printing => !s.has_error && s.printing,
        WaitKind::Buffer => !s.has_error && !s.buf_full,
        WaitKind::Completion => status::is_idle(s),
    }
}

/// A status that ends the wait with an error.
pub open spec fn breaks(kind: WaitKind, s: PrinterStatus) -> bool {
    (kind is Printing || kind is Buffer) && s.has_error
}

/// The error of a broken wait.
pub open spec fn break_error(kind: WaitKind, s: PrinterStatus) -> ErrorModel {
    ErrorModel::InvalidResponse(
        (if kind is Printing {
            "printer error after START_PRINT: "@
        } else {
            "printer error while waiting for buffer: "@
        }) + status::error_words(s),
    )
}

/// The error of a wait whose queries are used up.
pub open spec fn timeout_error(kind: WaitKind) -> ErrorModel {
    match kind {
        WaitKind::Ready => ErrorModel::InvalidResponse("timeout waiting for device ready"@),
        WaitKind::Printing => ErrorModel::InvalidResponse(
            "timeout waiting for printing station"@,
        ),
        WaitKind::Buffer => ErrorModel::InvalidResponse("timeout waiting for buffer space"@),
        WaitKind::Completion => ErrorModel::Timeout("print completion"@),
    }
}

/// A wait in progress.
#[derive(Debug, Clone, Copy, PartialEq, Eq, Structural)]
pub struct Wait {
    /// What it is for.
    pub kind: WaitKind,
    /// Queries allowed.
    pub max: usize,
    /// Queries answered so far.
    pub made: usize,
    /// Whether a pause (and not a query) is outstanding.
    pub asleep: bool,
}

/// What a wait asks for next, or how it ended.
#[derive(Debug, PartialEq, Eq)]
pub enum WaitStep {
    /// Query the status.
    Query,
    /// Pause for that many milliseconds.
    Sleep(u64),
    /// The awaited status is there.
    Settled(PrinterStatus),
    /// The printer reported a fault.
    Broken(Error),
    /// The queries are used up.
    GaveUp,
}

impl Wait {
    /// Queries made never exceed queries allowed, and an outstanding query is
    /// one of them.
    pub open spec fn wf(self) -> bool {
        &&& self.made <= self.max
        &&& !self.asleep ==> self.made < self.max
        &&& self.asleep && pauses_first(self.kind) ==> self.made < self.max
    }

    /// The wait that `start` begins; meaningful if queries are allowed.
    pub open spec fn started(kind: WaitKind, max: usize) -> Wait {
        Wait { kind, max, made: 0, asleep: pauses_first(kind) }
    }

    /// What a wait in progress asks for.
    pub open spec fn asks(self, step: WaitStep) -> bool {
        if self.asleep {
            step == WaitStep::Sleep(poll_interval(self.kind))
        } else {
            step is Query
        }
    }

    /// The wait after an outstanding pause, if it goes on.
    pub open spec fn woken(self) -> Wait {
        Wait { asleep: false, ..self }
    }

    /// The wait after an answer that neither settled nor broke it, if it goes on.
    pub open spec fn counted(self) -> Wait {
        Wait { made: (self.made + 1) as usize, asleep: true, ..self }
    }

    /// Begin a wait with at most `max` queries.
    pub fn start(kind: WaitKind, max: usize) -> (begun: (Wait, WaitStep))
        ensures
            begun.0 == Wait::started(kind, max),
            max == 0 ==> begun.1 is GaveUp,
            max > 0 ==> begun.0.wf() && begun.0.asks(begun.1),
    {
        let w = Wait { kind, max, made: 0, asleep: kind.begins_with_pause() };
        if max == 0 {
            (w, WaitStep::GaveUp)
        } else {
            (w, w.ask())
        }
    }

    /// What the wait asks for.
    fn ask(&self) -> (step: WaitStep)
        ensures
            self.asks(step),
    {
        if self.asleep {
            WaitStep::Sleep(
                match self.kind {
                    WaitKind::Buffer => BUFFER_POLL_MS,
                    _ => POLL_MS,
                },
            )
        } else {
            WaitStep::Query
        }
    }

    /// The outstanding pause is over.
    pub fn on_slept(&mut self) -> (step: WaitStep)
        requires
            old(self).wf(),
            old(self).asleep,
        ensures
            old(self).made == old(self).max ==> step is GaveUp && *final(self) == *old(self),
            old(self).made < old(self).max ==> step is Query && *final(self) == old(self).woken()
                && final(self).wf(),
    {
        if self.made < self.max {
            self.asleep = false;
            WaitStep::Query
        } else {
            WaitStep::GaveUp
        }
    }

    /// The outstanding query brought this status (`None`: no usable answer).
    pub fn on_status(&mut self, answer: Option<PrinterStatus>) -> (step: WaitStep)
        requires
            old(self).wf(),
            !old(self).asleep,
        ensures
            match answer {
                Some(s) if breaks(old(self).kind, s) => *final(self) == *old(self) && (
                step matches WaitStep::Broken(e) && e@ == break_error(old(self).kind, s)),
                Some(s) if settles(old(self).kind, s) => *final(self) == *old(self) && step
                    == WaitStep::Settled(s),
                _ => {
                    if old(self).made + 1 == old(self).max && pauses_first(old(self).kind) {
                        &&& step is GaveUp
                        &&& *final(self) == (Wait {
                            made: (old(self).made + 1) as usize,
                            ..*old(self)
                        })
                    } else {
                        &&& *final(self) == old(self).counted()
                        &&& final(self).wf()
                        &&& final(self).asks(step)
                    }
                },
            },
    {
        if let Some(s) = answer {
            match self.kind {
                WaitKind::Ready => {
                    if s.idle() {
                        return WaitStep::Settled(s);
                    }
                },
                WaitKind::Printing => {
                    if s.has_error {
                        return WaitStep::Broken(
                            Error::InvalidResponse(
                                s.fault_text("printer error after START_PRINT: "),
                            ),
                        );
                    }
                    if s.printing {
                        return WaitStep::Settled(s);
                    }
                },
                WaitKind::Buffer => {
                    if s.has_error {
                        return WaitStep::Broken(
                            Error::InvalidResponse(
                                s.fault_text("printer error while waiting for buffer: "),
                            ),
                        );
                    }
                    if !s.buf_full {
                        return WaitStep::Settled(s);
                    }
                },
                WaitKind::Completion => {
                    if s.idle() {
                        return WaitStep::Settled(s);
                    }
                },
            }
        }
        self.made = self.made + 1;
        if self.made == self.max && self.kind.begins_with_pause() {
            WaitStep::GaveUp
        } else {
            self.asleep = true;
            self.ask()
        }
    }
}

/// Queries allowed while waiting for the device to be idle.
pub const READY_ATTEMPTS: usize = 60;

/// Queries allowed while waiting for the printing station.
pub const PRINTING_ATTEMPTS: usize = 60;

/// Queries allowed while waiting for buffer space.
pub const BUFFER_READY_ATTEMPTS: usize = 200;

/// Queries allowed while waiting for the print to be complete.
pub const COMPLETION_POLLS: usize = 300;

/// Queries that a wait of a script may make.
pub open spec fn attempts(kind: WaitKind) -> usize {
    match kind {
        WaitKind::Ready => READY_ATTEMPTS,
        WaitKind::Printing => PRINTING_ATTEMPTS,
        WaitKind::Buffer => BUFFER_READY_ATTEMPTS,
        WaitKind::Completion => COMPLETION_POLLS,
    }
}

/// One step of a script.
#[derive(Debug, PartialEq, Eq)]
pub enum Op {
    /// Send CHECK_DEVICE; the answer must echo the command.
    CheckDevice,
    /// Send a command with one parameter.
    Cmd {
        /// Command byte.
        cmd: u8,
        /// Parameter.
        param: u16,
    },
    /// Send a command with two parameters.
    CmdTwo {
        /// Command byte.
        cmd: u8,
        /// First parameter.
        first: u16,
        /// Second parameter.
        second: u16,
    },
    /// Send a command frame as it is.
    Frame(Vec<u8>),
    /// Send the date of the day on which this step is sent.
    DateFrame,
    /// Announce a bulk transfer; some answer must come.
    BulkHeader {
        /// Length of the stream, modulo 2^16.
        len: u16,
        /// Number of data packets.
        packets: usize,
    },
    /// Send a stream as data packets, without reading an answer to the last one.
    BulkData(Vec<u8>),
    /// Send a stream as E-series bulk frames.
    ESeriesBulk {
        /// Command byte of the frames.
        cmd: u8,
        /// The stream.
        stream: Vec<u8>,
    },
    /// Wait for some status.
    Await(WaitKind),
    /// Pause for that many milliseconds.
    Pause(u64),
    /// Give up.
    Abort(Error),
}

/// A step of a script, with its bytes.
pub enum OpModel {
    /// See [`Op::CheckDevice`].
    CheckDevice,
    /// See [`Op::Cmd`].
    Cmd(u8, u16),
    /// See [`Op::CmdTwo`].
    CmdTwo(u8, u16, u16),
    /// See [`Op::Frame`].
    Frame(Seq<u8>),
    /// See [`Op::DateFrame`].
    DateFrame,
    /// See [`Op::BulkHeader`].
    BulkHeader(u16, int),
    /// See [`Op::BulkData`].
    BulkData(Seq<u8>),
    /// See [`Op::ESeriesBulk`].
    ESeriesBulk(u8, Seq<u8>),
    /// See [`Op::Await`].
    Await(WaitKind),
    /// See [`Op::Pause`].
    Pause(u64),
    /// See [`Op::Abort`].
    Abort(ErrorModel),
}

impl View for Op {
    type V = OpModel;

    open spec fn view(&self) -> OpModel {
        match self {
            Op::CheckDevice => OpModel::CheckDevice,
            Op::Cmd { cmd, param } => OpModel::Cmd(*cmd, *param),
            Op::CmdTwo { cmd, first, second } => OpModel::CmdTwo(*cmd, *first, *second),
            Op::Frame(bytes) => OpModel::Frame(bytes@),
            Op::DateFrame => OpModel::DateFrame,
            Op::BulkHeader { len, packets } => OpModel::BulkHeader(*len, *packets as int),
            Op::BulkData(bytes) => OpModel::BulkData(bytes@),
            Op::ESeriesBulk { cmd, stream } => OpModel::ESeriesBulk(*cmd, stream@),
            Op::Await(kind) => OpModel::Await(*kind),
            Op::Pause(ms) => OpModel::Pause(*ms),
            Op::Abort(e) => OpModel::Abort(e@),
        }
    }
}

/// A script as a sequence of steps.
pub open spec fn script_of(ops: Seq<Op>) -> Seq<OpModel> {
    Seq::new(ops.len(), |i: int| ops[i]@)
}

/// What came of an action.
#[derive(Debug, PartialEq, Eq)]
pub enum Event {
    /// A step was sent. `None`: no answer; else whether the answer echoes the
    /// command.
    Answered(Option<bool>),
    /// The status was queried (`None`: no usable answer).
    Status(Option<PrinterStatus>),
    /// The pause is over.
    Slept,
    /// The transport failed.
    Failed(Error),
}

/// What a flow asks for.
#[derive(Debug, PartialEq, Eq)]
pub enum Action {
    /// Send the current step.
    Perform,
    /// Query the status.
    Query,
    /// Pause for that many milliseconds.
    Sleep(u64),
    /// Nothing: the script is through.
    Done,
    /// Nothing: the flow failed.
    Fail(Error),
}

/// An action, with the text of its error.
pub enum ActionModel {
    /// See [`Action::Perform`].
    Perform,
    /// See [`Action::Query`].
    Query,
    /// See [`Action::Sleep`].
    Sleep(u64),
    /// See [`Action::Done`].
    Done,
    /// See [`Action::Fail`].
    Fail(ErrorModel),
}

impl View for Action {
    type V = ActionModel;

    open spec fn view(&self) -> ActionModel {
        match self {
            Action::Perform => ActionModel::Perform,
            Action::Query => ActionModel::Query,
            Action::Sleep(ms) => ActionModel::Sleep(*ms),
            Action::Done => ActionModel::Done,
            Action::Fail(e) => ActionModel::Fail(e@),
        }
    }
}

/// A flow: a script and how far it has come.
#[derive(Debug, PartialEq, Eq)]
pub struct Flow {
    ops: Vec<Op>,
    pos: usize,
    wait: Wait,
    over: bool,
}

/// The state of a flow.
pub struct FlowModel {
    /// All steps.
    pub script: Seq<OpModel>,
    /// Steps that are through.
    pub pos: int,
    /// The wait in progress, where the current step is a wait.
    pub wait: Wait,
    /// Nothing more will be asked for.
    pub over: bool,
}

impl View for Flow {
    type V = FlowModel;

    closed spec fn view(&self) -> FlowModel {
        FlowModel {
            script: script_of(self.ops@),
            pos: self.pos as int,
            wait: self.wait,
            over: self.over,
        }
    }
}

/// What an event means for the current step.
pub enum Verdict {
    /// The step is through.
    Pass,
    /// The flow fails.
    Fail(ErrorModel),
    /// The wait goes on.
    Stay(Wait),
}

/// What an answer means for the step that was sent: a device check needs an echo,
/// a bulk announcement some answer, anything else nothing.
pub open spec fn answer_verdict(op: OpModel, answer: Option<bool>) -> Verdict {
    match op {
        OpModel::CheckDevice => if answer == Some(true) {
            Verdict::Pass
        } else {
            Verdict::Fail(ErrorModel::InvalidResponse("CHECK_DEVICE failed"@))
        },
        OpModel::BulkHeader(_, _) => if answer is Some {
            Verdict::Pass
        } else {
            Verdict::Fail(ErrorModel::InvalidResponse("no response to NEXT_ZIPPEDBULK"@))
        },
        _ => Verdict::Pass,
    }
}

/// What a status means for a wait of a script. A device that is ready but reports
/// a fault fails the flow.
pub open spec fn status_verdict(w: Wait, answer: Option<PrinterStatus>) -> Verdict {
    match answer {
        Some(s) if breaks(w.kind, s) => Verdict::Fail(break_error(w.kind, s)),
        Some(s) if settles(w.kind, s) => if w.kind is Ready && s.has_error {
            Verdict::Fail(
                ErrorModel::InvalidResponse("printer error: "@ + status::error_words(s)),
            )
        } else {
            Verdict::Pass
        },
        _ => if w.made + 1 == w.max && pauses_first(w.kind) {
            Verdict::Fail(timeout_error(w.kind))
        } else {
            Verdict::Stay(w.counted())
        },
    }
}

/// What the end of a pause means for the current step.
pub open spec fn slept_verdict(op: OpModel, w: Wait) -> Verdict {
    if op is Await {
        if w.made == w.max {
            Verdict::Fail(timeout_error(w.kind))
        } else {
            Verdict::Stay(w.woken())
        }
    } else {
        Verdict::Pass
    }
}

/// What an event means for a flow.
pub open spec fn verdict(f: FlowModel, event: Event) -> Verdict {
    match event {
        Event::Answered(answer) => answer_verdict(f.script[f.pos], answer),
        Event::Status(answer) => status_verdict(f.wait, answer),
        Event::Slept => slept_verdict(f.script[f.pos], f.wait),
        Event::Failed(e) => Verdict::Fail(e@),
    }
}

/// What a wait asks for.
pub open spec fn wait_action(w: Wait) -> ActionModel {
    if w.asleep {
        ActionModel::Sleep(poll_interval(w.kind))
    } else {
        ActionModel::Query
    }
}

/// The flow that starts step `pos` of a script, and what it asks for.
pub open spec fn enter(script: Seq<OpModel>, pos: int, wait: Wait) -> (FlowModel, ActionModel) {
    if pos >= script.len() {
        (FlowModel { script, pos, wait, over: true }, ActionModel::Done)
    } else {
        match script[pos] {
            OpModel::Abort(e) => (
                FlowModel { script, pos, wait, over: true },
                ActionModel::Fail(e),
            ),
            OpModel::Await(kind) => {
                let w = Wait::started(kind, attempts(kind));
                (FlowModel { script, pos, wait: w, over: false }, wait_action(w))
            },
            OpModel::Pause(ms) => (
                FlowModel { script, pos, wait, over: false },
                ActionModel::Sleep(ms),
            ),
            _ => (FlowModel { script, pos, wait, over: false }, ActionModel::Perform),
        }
    }
}

/// The wait of a flow that has not waited yet.
pub open spec fn no_wait() -> Wait {
    Wait::started(WaitKind::Ready, READY_ATTEMPTS)
}

/// A flow at the start of a script, and what it asks for.
pub open spec fn begun(script: Seq<OpModel>) -> (FlowModel, ActionModel) {
    enter(script, 0, no_wait())
}

/// The flow after an event, and what it asks for.
pub open spec fn react(f: FlowModel, event: Event) -> (FlowModel, ActionModel) {
    match verdict(f, event) {
        Verdict::Pass => enter(f.script, f.pos + 1, f.wait),
        Verdict::Fail(e) => (FlowModel { over: true, ..f }, ActionModel::Fail(e)),
        Verdict::Stay(w) => (FlowModel { wait: w, ..f }, wait_action(w)),
    }
}

/// `event` is an outcome of what the flow asks for.
pub open spec fn expects(f: FlowModel, event: Event) -> bool {
    !f.over && match event {
        Event::Answered(_) => !(f.script[f.pos] is Await) && !(f.script[f.pos] is Pause),
        Event::Status(_) => f.script[f.pos] is Await && !f.wait.asleep,
        Event::Slept => f.script[f.pos] is Pause || (f.script[f.pos] is Await && f.wait.asleep),
        Event::Failed(_) => true,
    }
}

/// The state makes sense: a flow that is not over stands at a step, and at a wait
/// its counters are those of that wait.
pub open spec fn flow_wf(f: FlowModel) -> bool {
    &&& 0 <= f.pos
    &&& !f.over ==> {
        &&& f.pos < f.script.len()
        &&& !(f.script[f.pos] is Abort)
        &&& f.script[f.pos] matches OpModel::Await(kind) ==> {
            &&& f.wait.kind == kind
            &&& f.wait.max == attempts(kind)
            &&& f.wait.wf()
        }
    }
}

/// Queries allowed to a wait of a script.
fn max_attempts(kind: WaitKind) -> (n: usize)
    ensures
        n == attempts(kind),
        n > 0,
{
    match kind {
        WaitKind::Ready => READY_ATTEMPTS,
        WaitKind::Printing => PRINTING_ATTEMPTS,
        WaitKind::Buffer => BUFFER_READY_ATTEMPTS,
        WaitKind::Completion => COMPLETION_POLLS,
    }
}

/// The error of a wait whose queries are used up.
fn timed_out(kind: WaitKind) -> (e: Error)
    ensures
        e@ == timeout_error(kind),
{
    match kind {
        WaitKind::Ready => Error::InvalidResponse("timeout waiting for device ready".to_owned()),
        WaitKind::Printing => Error::InvalidResponse(
            "timeout waiting for printing station".to_owned(),
        ),
        WaitKind::Buffer => Error::InvalidResponse("timeout waiting for buffer space".to_owned()),
        WaitKind::Completion => Error::Timeout("print completion".to_owned()),
    }
}

impl Flow {
    /// Begin a script.
    pub fn new(ops: Vec<Op>) -> (r: (Flow, Action))
        ensures
            (r.0@, r.1@) == begun(script_of(ops@)),
            flow_wf(r.0@),
    {
        let mut flow = Flow {
            ops,
            pos: 0,
            wait: Wait { kind: WaitKind::Ready, max: READY_ATTEMPTS, made: 0, asleep: false },
            over: false,
        };
        let action = flow.start_step();
        (flow, action)
    }

    /// Whether nothing more will be asked for.
    pub fn is_over(&self) -> (b: bool)
        ensures
            b == self@.over,
    {
        self.over
    }

    /// The current step.
    pub fn op(&self) -> (op: &Op)
        requires
            flow_wf(self@),
            !self@.over,
        ensures
            op@ == self@.script[self@.pos],
    {
        &self.ops[self.pos]
    }

    /// Start the step at `pos`.
    fn start_step(&mut self) -> (action: Action)
        requires
            !old(self).over,
        ensures
            (final(self)@, action@) == enter(old(self)@.script, old(self)@.pos, old(self)@.wait),
            flow_wf(final(self)@),
    {
        if self.pos >= self.ops.len() {
            self.over = true;
            return Action::Done;
        }
        match &self.ops[self.pos] {
            Op::Abort(e) => {
                let e = e.duplicate();
                self.over = true;
                Action::Fail(e)
            },
            Op::Await(kind) => {
                let kind: WaitKind = *kind;
                let (w, _) = Wait::start(kind, max_attempts(kind));
                self.wait = w;
                self.poll()
            },
            Op::Pause(ms) => Action::Sleep(*ms),
            _ => Action::Perform,
        }
    }

    /// What the wait in progress asks for.
    fn poll(&self) -> (action: Action)
        ensures
            action@ == wait_action(self@.wait),
    {
        match self.wait.ask() {
            WaitStep::Sleep(ms) => Action::Sleep(ms),
            _ => Action::Query,
        }
    }

    /// The current step is through.
    fn pass(&mut self) -> (action: Action)
        requires
            flow_wf(old(self)@),
            !old(self)@.over,
        ensures
            (final(self)@, action@) == enter(
                old(self)@.script,
                old(self)@.pos + 1,
                old(self)@.wait,
            ),
            flow_wf(final(self)@),
    {
        assert(self.ops.len() == self.ops@.len());
        self.pos = self.pos + 1;
        self.start_step()
    }

    /// The flow fails.
    fn fail(&mut self, e: Error) -> (action: Action)
        requires
            flow_wf(old(self)@),
        ensures
            final(self)@ == (FlowModel { over: true, ..old(self)@ }),
            action@ == ActionModel::Fail(e@),
            flow_wf(final(self)@),
    {
        self.over = true;
        Action::Fail(e)
    }

    /// Take what came of the action that was asked for, and say what is next.
    pub fn step(&mut self, event: Event) -> (action: Action)
        requires
            flow_wf(old(self)@),
            expects(old(self)@, event),
        ensures
            (final(self)@, action@) == react(old(self)@, event),
            flow_wf(final(self)@),
    {
        match event {
            Event::Answered(answer) => self.on_answer(answer),
            Event::Status(answer) => self.on_status(answer),
            Event::Slept => self.on_slept(),
            Event::Failed(e) => self.fail(e),
        }
    }

    /// The current step was sent.
    fn on_answer(&mut self, answer: Option<bool>) -> (action: Action)
        requires
            flow_wf(old(self)@),
            expects(old(self)@, Event::Answered(answer)),
        ensures
            (final(self)@, action@) == react(old(self)@, Event::Answered(answer)),
            flow_wf(final(self)@),
    {
        let refusal: Option<Error> = match &self.ops[self.pos] {
            Op::CheckDevice => match answer {
                Some(true) => None,
                _ => Some(Error::InvalidResponse("CHECK_DEVICE failed".to_owned())),
            },
            Op::BulkHeader { .. } => match answer {
                Some(_) => None,
                None => Some(
                    Error::InvalidResponse("no response to NEXT_ZIPPEDBULK".to_owned()),
                ),
            },
            _ => None,
        };
        match refusal {
            Some(e) => self.fail(e),
            None => self.pass(),
        }
    }

    /// The status was queried for the wait in progress.
    fn on_status(&mut self, answer: Option<PrinterStatus>) -> (action: Action)
        requires
            flow_wf(old(self)@),
            expects(old(self)@, Event::Status(answer)),
        ensures
            (final(self)@, action@) == react(old(self)@, Event::Status(answer)),
            flow_wf(final(self)@),
    {
        let mut w: Wait = self.wait;
        let kind: WaitKind = w.kind;
        let step = w.on_status(answer);
        match step {
            WaitStep::Settled(s) => {
                if s.has_error && kind == WaitKind::Ready {
                    self.fail(Error::InvalidResponse(s.fault_text("printer error: ")))
                } else {
                    self.pass()
                }
            },
            WaitStep::Broken(e) => self.fail(e),
            WaitStep::GaveUp => self.fail(timed_out(kind)),
            _ => {
                self.wait = w;
                self.poll()
            },
        }
    }

    /// A pause is over.
    fn on_slept(&mut self) -> (action: Action)
        requires
            flow_wf(old(self)@),
            expects(old(self)@, Event::Slept),
        ensures
            (final(self)@, action@) == react(old(self)@, Event::Slept),
            flow_wf(final(self)@),
    {
        let waiting: bool = match &self.ops[self.pos] {
            Op::Await(_) => true,
            _ => false,
        };
        if !waiting {
            return self.pass();
        }
        let mut w: Wait = self.wait;
        match w.on_slept() {
            WaitStep::GaveUp => {
                let e = timed_out(w.kind);
                self.fail(e)
            },
            _ => {
                self.wait = w;
                self.poll()
            },
        }
    }
}

/// The flow after some events.
pub open spec fn run(f: FlowModel, events: Seq<Event>) -> FlowModel
    decreases events.len(),
{
    if events.len() == 0 {
        f
    } else {
        react(run(f, events.drop_last()), events.last()).0
    }
}

/// Each event is an outcome of what the flow asked for at that point.
pub open spec fn follows(f: FlowModel, events: Seq<Event>) -> bool
    decreases events.len(),
{
    events.len() == 0 || (follows(f, events.drop_last()) && expects(
        run(f, events.drop_last()),
        events.last(),
    ))
}

/// Events that a step can take.
pub open spec fn step_budget(op: OpModel) -> nat {
    match op {
        OpModel::Await(kind) => 2 * attempts(kind) as nat,
        _ => 1,
    }
}

/// Events that the steps from `pos` on can take.
pub open spec fn budget(script: Seq<OpModel>, pos: int) -> nat
    decreases script.len() - pos,
{
    if pos < 0 || pos >= script.len() {
        0
    } else {
        step_budget(script[pos]) + budget(script, pos + 1)
    }
}

/// Events that the current step can still take.
spec fn step_left(f: FlowModel) -> nat {
    if f.script[f.pos] is Await {
        (2 * (f.wait.max - f.wait.made) + if f.wait.asleep == pauses_first(f.wait.kind) {
            0int
        } else if f.wait.asleep {
            1
        } else {
            -1
        }) as nat
    } else {
        1
    }
}

/// Events that a flow can still take.
spec fn events_left(f: FlowModel) -> nat {
    if f.over {
        0
    } else {
        step_left(f) + budget(f.script, f.pos + 1)
    }
}

/// A flow keeps its script, takes the steps in order and one at a time, and asks
/// for nothing once it is over.
pub proof fn law_flow_keeps_order(f: FlowModel, event: Event)
    requires
        flow_wf(f),
        expects(f, event),
    ensures
        react(f, event).0.script == f.script,
        react(f, event).0.pos == f.pos || react(f, event).0.pos == f.pos + 1,
        flow_wf(react(f, event).0),
        react(f, event).0.over <==> react(f, event).1 is Done || react(f, event).1 is Fail,
        forall|later: Event| react(f, event).0.over ==> !expects(react(f, event).0, later),
{
}

/// Each event uses up some of what the flow can still take.
proof fn lemma_events_left(f: FlowModel, event: Event)
    requires
        flow_wf(f),
        expects(f, event),
    ensures
        events_left(react(f, event).0) < events_left(f),
{
    let g = react(f, event).0;
    if verdict(f, event) is Pass {
        assert(budget(f.script, f.pos + 1) == if f.pos + 1 < f.script.len() {
            step_budget(f.script[f.pos + 1]) + budget(f.script, f.pos + 2)
        } else {
            0
        });
    }
}

/// A flow that began well stays well-formed along its events.
proof fn lemma_run(script: Seq<OpModel>, events: Seq<Event>)
    requires
        follows(begun(script).0, events),
    ensures
        flow_wf(run(begun(script).0, events)),
        run(begun(script).0, events).script == script,
        events.len() + events_left(run(begun(script).0, events)) <= budget(script, 0),
    decreases events.len(),
{
    if events.len() == 0 {
        assert(budget(script, 0) == if script.len() > 0 {
            step_budget(script[0]) + budget(script, 1)
        } else {
            0
        });
    } else {
        lemma_run(script, events.drop_last());
        let f = run(begun(script).0, events.drop_last());
        lemma_events_left(f, events.last());
        law_flow_keeps_order(f, events.last());
    }
}

/// Every flow ends: a wait takes at most two events per query that it may make,
/// any other step one, so no course of events is longer than the budget of the
/// script.
pub proof fn law_flow_ends(script: Seq<OpModel>, events: Seq<Event>)
    requires
        follows(begun(script).0, events),
    ensures
        events.len() <= budget(script, 0),
{
    lemma_run(script, events);
}

/// The event that a step needs to be through.
pub open spec fn accepts(op: OpModel, event: Event) -> bool {
    match op {
        OpModel::CheckDevice => event == Event::Answered(Some(true)),
        OpModel::BulkHeader(_, _) => event matches Event::Answered(Some(_)),
        OpModel::Await(kind) => event matches Event::Status(Some(s)) && settles(kind, s) && !(
        kind is Ready && s.has_error),
        OpModel::Pause(_) => event is Slept,
        OpModel::Abort(_) => false,
        _ => event is Answered,
    }
}

/// Step `k` of the script gets through with `events[i]`.
pub open spec fn passes_at(script: Seq<OpModel>, events: Seq<Event>, k: int, i: int) -> bool {
    &&& 0 <= i < events.len()
    &&& run(begun(script).0, events.take(i)).pos == k
    &&& run(begun(script).0, events.take(i + 1)).pos == k + 1
}

/// Whatever happens in between, a step that is through got the event it needs.
pub proof fn law_passed_steps_were_accepted(script: Seq<OpModel>, events: Seq<Event>, k: int)
    requires
        follows(begun(script).0, events),
        0 <= k < run(begun(script).0, events).pos,
    ensures
        k < script.len(),
        exists|i: int| #[trigger] passes_at(script, events, k, i) && accepts(script[k], events[i]),
    decreases events.len(),
{
    let past = events.drop_last();
    let last = events.len() - 1;
    assert(events.take(last) =~= past);
    assert(events.take(last + 1) =~= events);
    lemma_run(script, past);
    let f = run(begun(script).0, past);
    law_flow_keeps_order(f, events.last());
    if k < f.pos {
        law_passed_steps_were_accepted(script, past, k);
        let i = choose|i: int| #[trigger]
            passes_at(script, past, k, i) && accepts(script[k], past[i]);
        assert(events.take(i) =~= past.take(i));
        assert(events.take(i + 1) =~= past.take(i + 1));
        assert(passes_at(script, events, k, i) && accepts(script[k], events[i]));
    } else {
        assert(passes_at(script, events, k, last) && accepts(script[k], events[last]));
    }
}

proof fn lemma_pos_grows(script: Seq<OpModel>, events: Seq<Event>, i: int)
    requires
        follows(begun(script).0, events),
        0 <= i <= events.len(),
    ensures
        run(begun(script).0, events.take(i)).pos <= run(begun(script).0, events).pos,
    decreases events.len(),
{
    if i < events.len() {
        let past = events.drop_last();
        lemma_pos_grows(script, past, i);
        lemma_run(script, past);
        law_flow_keeps_order(run(begun(script).0, past), events.last());
        assert(events.take(i) =~= past.take(i));
    } else {
        assert(events.take(i) =~= events);
    }
}

proof fn lemma_follows_take(f: FlowModel, events: Seq<Event>, i: int)
    requires
        follows(f, events),
        0 <= i <= events.len(),
    ensures
        follows(f, events.take(i)),
    decreases events.len(),
{
    if i < events.len() {
        lemma_follows_take(f, events.drop_last(), i);
        assert(events.take(i) =~= events.drop_last().take(i));
    } else {
        assert(events.take(i) =~= events);
    }
}

/// Steps get through in the order of the script.
pub proof fn law_steps_pass_in_order(
    script: Seq<OpModel>,
    events: Seq<Event>,
    k: int,
    i: int,
    l: int,
    j: int,
)
    requires
        follows(begun(script).0, events),
        passes_at(script, events, k, i),
        passes_at(script, events, l, j),
        k < l,
    ensures
        i < j,
{
    if j <= i {
        let head = events.take(i);
        lemma_follows_take(begun(script).0, events, i);
        lemma_pos_grows(script, head, j);
        assert(head.take(j) =~= events.take(j));
    }
}

/// A wait for the printing station or for buffer space never settles on a status
/// with a fault: there is nothing left to stop behind it.
pub proof fn law_faults_never_settle(kind: WaitKind, s: PrinterStatus)
    requires
        kind is Printing || kind is Buffer,
        s.has_error,
    ensures
        !settles(kind, s),
        forall|w: Wait| w.kind == kind ==> #[trigger] status_verdict(w, Some(s)) is Fail,
{
}

/// How long a flow waits at most, by the pauses between its queries: six seconds
/// for a ready device and for the printing station, four for buffer space, thirty
/// for the print to be complete.
pub proof fn law_longest_waits()
    ensures
        attempts(WaitKind::Ready) * poll_interval(WaitKind::Ready) == 6_000,
        attempts(WaitKind::Printing) * poll_interval(WaitKind::Printing) == 6_000,
        attempts(WaitKind::Buffer) * poll_interval(WaitKind::Buffer) == 4_000,
        attempts(WaitKind::Completion) * poll_interval(WaitKind::Completion) == 30_000,
{
    assert(attempts(WaitKind::Ready) == 60 && poll_interval(WaitKind::Ready) == 100);
    assert(attempts(WaitKind::Printing) == 60 && poll_interval(WaitKind::Printing) == 100);
    assert(attempts(WaitKind::Buffer) == 200 && poll_interval(WaitKind::Buffer) == 20);
    assert(attempts(WaitKind::Completion) == 300 && poll_interval(WaitKind::Completion) == 100);
}

/// What ends a wait. A device is ready, and a print complete, once the device is neither
/// busy nor printing, fault or no fault. The printing station is there once the device
/// prints, and there is room once its buffer is not full; both only as long as no fault
/// is reported, which breaks these two waits and no other.
pub proof fn law_what_ends_a_wait(s: PrinterStatus)
    ensures
        settles(WaitKind::Ready, s) <==> !(s.device_busy || s.printing),
        settles(WaitKind::Completion, s) <==> !(s.device_busy || s.printing),
        settles(WaitKind::Printing, s) <==> s.printing && !s.has_error,
        settles(WaitKind::Buffer, s) <==> !(s.buf_full || s.has_error),
        breaks(WaitKind::Printing, s) <==> s.has_error,
        breaks(WaitKind::Buffer, s) <==> s.has_error,
        !breaks(WaitKind::Ready, s),
        !breaks(WaitKind::Completion, s),
{
}

/// How often and how fast a wait asks: 60 times every 100 ms for the device and for the
/// printing station, 200 times every 20 ms for room, 300 times every 100 ms for
/// completion. The last two pause before they ask, the first two after.
pub proof fn law_wait_schedule()
    ensures
        attempts(WaitKind::Ready) == 60 && poll_interval(WaitKind::Ready) == 100,
        attempts(WaitKind::Printing) == 60 && poll_interval(WaitKind::Printing) == 100,
        attempts(WaitKind::Buffer) == 200 && poll_interval(WaitKind::Buffer) == 20,
        attempts(WaitKind::Completion) == 300 && poll_interval(WaitKind::Completion) == 100,
        begun(seq![OpModel::Await(WaitKind::Ready)]).1 == ActionModel::Query,
        begun(seq![OpModel::Await(WaitKind::Printing)]).1 == ActionModel::Query,
        begun(seq![OpModel::Await(WaitKind::Buffer)]).1 == ActionModel::Sleep(20),
        begun(seq![OpModel::Await(WaitKind::Completion)]).1 == ActionModel::Sleep(100),
{
}

/// What an answer does to a flow: a device check goes on with an echo only, a bulk
/// announcement with any answer, and every other step with or without one.
pub proof fn law_what_an_answer_does(f: FlowModel, answer: Option<bool>)
    requires
        flow_wf(f),
        expects(f, Event::Answered(answer)),
    ensures
        ({
            let (g, action) = react(f, Event::Answered(answer));
            let op = f.script[f.pos];
            &&& op == OpModel::CheckDevice && answer != Some(true) ==> g.over && action
                == ActionModel::Fail(ErrorModel::InvalidResponse("CHECK_DEVICE failed"@))
            &&& op is BulkHeader && answer is None ==> g.over && action == ActionModel::Fail(
                ErrorModel::InvalidResponse("no response to NEXT_ZIPPEDBULK"@),
            )
            &&& !(op == OpModel::CheckDevice && answer != Some(true)) && !(op is BulkHeader
                && answer is None) ==> g.pos == f.pos + 1
        }),
{
}

/// What a status does to a flow that waits: one that ends the wait takes the flow to the
/// next step, but a ready device that reports a fault ends it, and so does a fault that
/// breaks the wait; the printer's words are at the end of the error. Any other status,
/// or none, leaves the flow at its step unless the queries are used up.
pub proof fn law_what_a_status_does(f: FlowModel, kind: WaitKind, s: PrinterStatus)
    requires
        flow_wf(f),
        !f.over,
        f.script[f.pos] == OpModel::Await(kind),
        !f.wait.asleep,
    ensures
        ({
            let (g, action) = react(f, Event::Status(Some(s)));
            let fault = s.has_error && (kind is Printing || kind is Buffer || (kind is Ready
                && !s.device_busy && !s.printing));
            &&& fault ==> g.over && (action matches ActionModel::Fail(
                ErrorModel::InvalidResponse(t),
            ) && t.len() >= status::error_words(s).len() && t.skip(
                t.len() - status::error_words(s).len(),
            ) == status::error_words(s))
            &&& !fault && settles(kind, s) ==> g.pos == f.pos + 1
            &&& !fault && !settles(kind, s) ==> g.pos == f.pos
            &&& !fault && !settles(kind, s) && f.wait.made + 1 < f.wait.max ==> !g.over
                && g.wait.made == f.wait.made + 1 && action == ActionModel::Sleep(
                poll_interval(kind),
            )
        }),
        react(f, Event::Status(None)).0.pos == f.pos,
        f.wait.made + 1 < f.wait.max ==> react(f, Event::Status(None)).0.wait.made == f.wait.made
            + 1,
{
    let words = status::error_words(s);
    let a = "printer error: "@;
    let b = "printer error after START_PRINT: "@;
    let c = "printer error while waiting for buffer: "@;
    assert((a + words).skip(a.len() as int) =~= words);
    assert((b + words).skip(b.len() as int) =~= words);
    assert((c + words).skip(c.len() as int) =~= words);
}

/// How a flow ends: it is done only when every step is through, and whatever failed at
/// the transport is handed on as it is.
pub proof fn law_how_a_flow_ends(f: FlowModel, event: Event)
    requires
        flow_wf(f),
        expects(f, event),
    ensures
        react(f, event).1 is Done ==> react(f, event).0.pos == f.script.len(),
        react(f, event).1 is Fail ==> react(f, event).0.pos < f.script.len(),
        event matches Event::Failed(e) ==> react(f, event).1 == ActionModel::Fail(e@)
            && react(f, event).0.pos == f.pos,
        f.script.len() > f.pos + 1 && react(f, event).0.pos == f.pos + 1 ==> match f.script[f.pos
            + 1] {
            OpModel::Abort(e) => react(f, event).1 == ActionModel::Fail(e),
            OpModel::Pause(ms) => react(f, event).1 == ActionModel::Sleep(ms),
            OpModel::Await(_) => react(f, event).1 is Query || react(f, event).1 is Sleep,
            _ => react(f, event).1 is Perform,
        },
{
}

/// How many of some events are answers to a status query.
pub open spec fn queries(events: Seq<Event>) -> int
    decreases events.len(),
{
    if events.len() == 0 {
        0
    } else {
        queries(events.drop_last()) + if events.last() is Status {
            1int
        } else {
            0
        }
    }
}

/// No event ends a wait of this kind.
pub open spec fn nothing_ends(kind: WaitKind, events: Seq<Event>) -> bool {
    forall|i: int|
        0 <= i < events.len() ==> match #[trigger] events[i] {
            Event::Status(Some(s)) => !settles(kind, s) && !breaks(kind, s),
            Event::Failed(_) => false,
            _ => true,
        }
}

/// A wait that nothing ends makes all its queries, and no more: 60 for the device and
/// for the printing station, 200 for room, 300 for completion; then it fails.
pub proof fn law_fruitless_wait_makes_all_its_queries(kind: WaitKind, events: Seq<Event>)
    requires
        follows(begun(seq![OpModel::Await(kind)]).0, events),
        nothing_ends(kind, events),
    ensures
        ({
            let f = run(begun(seq![OpModel::Await(kind)]).0, events);
            let budget = if kind is Buffer {
                200int
            } else if kind is Completion {
                300
            } else {
                60
            };
            &&& f.pos == 0
            &&& queries(events) <= budget
            &&& !f.over ==> f.wait.made == queries(events)
            &&& f.over ==> queries(events) == budget
        }),
    decreases events.len(),
{
    let script = seq![OpModel::Await(kind)];
    if events.len() > 0 {
        let past = events.drop_last();
        assert forall|i: int| 0 <= i < past.len() implies match #[trigger] past[i] {
            Event::Status(Some(s)) => !settles(kind, s) && !breaks(kind, s),
            Event::Failed(_) => false,
            _ => true,
        } by {
            assert(events[i] == past[i]);
        }
        law_fruitless_wait_makes_all_its_queries(kind, past);
        lemma_run(script, past);
        let last = events[events.len() - 1];
        assert(last == events.last());
    }
}

/// A wait that sleeps asks for its pause, and for nothing else; one that is awake asks
/// for a query, and for nothing else. It sleeps at first just where it pauses before it
/// asks; it wakes to ask, counts each query once, and then sleeps again.
pub proof fn law_what_a_wait_asks_for(w: Wait, step: WaitStep, kind: WaitKind, max: usize)
    ensures
        w.asleep ==> (w.asks(step) <==> step == WaitStep::Sleep(
            if w.kind is Buffer {
                20
            } else {
                100
            },
        )),
        !w.asleep ==> (w.asks(step) <==> step is Query),
        ({
            let s = Wait::started(kind, max);
            &&& s.kind == kind && s.max == max && s.made == 0
            &&& s.asleep <==> kind is Buffer || kind is Completion
        }),
        !w.woken().asleep,
        w.woken().made == w.made,
        w.made < usize::MAX ==> w.counted().made == w.made + 1,
        w.counted().asleep,
        w.woken().kind == w.kind && w.counted().kind == w.kind,
        w.woken().max == w.max && w.counted().max == w.max,
{
}

} // verus!
