//! The reception loop as a state machine.
//!
//! The loop itself, with its socket, its clock and the dispatcher, runs
//! outside this crate. It tells the machine what happened, as an [`Event`],
//! and does what the machine answers, an [`Action`], writing the
//! [`Diagnostic`]s that come with it to the log:
//!
//! ```text
//! Starting --Bound--> Idle --IterationStarted--> Receiving --Datagram (a command)--> Dispatching
//!    |                 ^                            |                                     |
//!  BindFailed          +--- Datagram (no command), ReceiveFailed ---+---- Dispatched -----+
//!    v
//!  Fatal
//! ```
//!
//! A datagram is decoded in the step that accepts it. An event that does not
//! belong to the current phase changes nothing.

use vstd::prelude::*;
use crate::codec::{decode, decoded};
use crate::command::{Command, DecodeError};
use crate::diagnostic::Diagnostic;
use crate::timing::{BatchStats, BatchView, TimingSample};

verus! {

/// Where the loop stands.
#[derive(Clone, Copy, Debug, PartialEq, Eq, Structural)]
pub enum Phase {
    /// The socket is not bound yet.
    Starting,
    /// Between two iterations.
    Idle,
    /// Waiting for a datagram.
    Receiving,
    /// A command is with the dispatcher.
    Dispatching,
    /// The socket could not be bound: the loop never runs.
    Fatal,
}

/// What happened outside.
#[derive(Clone, Copy, Debug)]
pub enum Event<'a> {
    /// The socket is bound and receives broadcasts.
    Bound,
    /// The socket could not be set up.
    BindFailed,
    /// A new iteration begins: the loop is about to wait for a datagram.
    IterationStarted,
    /// A datagram arrived; the bytes are cut to the count that was read.
    Datagram(&'a [u8]),
    /// Receiving failed.
    ReceiveFailed,
    /// The dispatcher is done with the command it was given.
    Dispatched { succeeded: bool, timing: TimingSample },
}

/// What the loop has to do next.
#[derive(Clone, Copy, Debug, PartialEq, Eq, Structural)]
pub enum Action {
    /// Nothing: the event did not belong to the current phase.
    Ignore,
    /// Begin the next iteration.
    NextIteration,
    /// Wait for a datagram.
    Receive,
    /// Hand the command to the dispatcher and wait until it is done.
    Dispatch(Command),
    /// Give up: report the startup failure to the caller.
    Abort,
}

/// The answer to one event.
#[derive(Debug, PartialEq, Eq)]
pub struct Outcome {
    pub action: Action,
    /// Entries for the log, in the order in which they are written.
    pub diagnostics: Vec<Diagnostic>,
}

/// Mathematical model of an [`Outcome`].
pub struct OutcomeView {
    pub action: Action,
    pub diagnostics: Seq<Diagnostic>,
}

impl View for Outcome {
    type V = OutcomeView;

    open spec fn view(&self) -> OutcomeView {
        OutcomeView { action: self.action, diagnostics: self.diagnostics@ }
    }
}

impl DeepView for Outcome {
    type V = OutcomeView;

    open spec fn deep_view(&self) -> OutcomeView {
        self@
    }
}

impl OutcomeView {
    /// An answer without log entries.
    pub open spec fn quiet(action: Action) -> OutcomeView {
        OutcomeView { action, diagnostics: Seq::empty() }
    }
}

/// Mathematical model of a [`CommandService`].
pub struct ServiceState {
    pub phase: Phase,
    /// Whether dropped datagrams are reported to the log.
    pub report_discarded: bool,
    pub stats: BatchView,
}

impl ServiceState {
    /// The state of a service that has not bound its socket yet.
    pub open spec fn initial(report_discarded: bool) -> ServiceState {
        ServiceState { phase: Phase::Starting, report_discarded, stats: BatchView::empty() }
    }

    /// The same state in another phase.
    pub open spec fn at(self, phase: Phase) -> ServiceState {
        ServiceState { phase, ..self }
    }

    /// Whether the loop is running: it has started and has not failed to.
    pub open spec fn running(self) -> bool {
        self.phase is Idle || self.phase is Receiving || self.phase is Dispatching
    }

    /// The answer to an event that does not belong to the current phase.
    pub open spec fn ignored(self) -> (ServiceState, OutcomeView) {
        (self, OutcomeView::quiet(Action::Ignore))
    }

    /// The socket was bound, or could not be.
    pub open spec fn after_bind(self, bound: bool) -> (ServiceState, OutcomeView) {
        if !(self.phase is Starting) {
            self.ignored()
        } else if bound {
            (self.at(Phase::Idle), OutcomeView::quiet(Action::NextIteration))
        } else {
            (self.at(Phase::Fatal), OutcomeView::quiet(Action::Abort))
        }
    }

    /// An iteration begins.
    pub open spec fn after_iteration_start(self) -> (ServiceState, OutcomeView) {
        if self.phase is Idle {
            (self.at(Phase::Receiving), OutcomeView::quiet(Action::Receive))
        } else {
            self.ignored()
        }
    }

    /// Receiving failed: the failure is logged and the iteration is over.
    pub open spec fn after_receive_failure(self) -> (ServiceState, OutcomeView) {
        if self.phase is Receiving {
            (
                self.at(Phase::Idle),
                OutcomeView {
                    action: Action::NextIteration,
                    diagnostics: seq![Diagnostic::ReceiveFailed],
                },
            )
        } else {
            self.ignored()
        }
    }

    /// A datagram arrived and decoded to `decoded`: a command goes to the
    /// dispatcher, anything else is dropped and the iteration is over.
    pub open spec fn after_decode(self, decoded: Result<Command, DecodeError>) -> (
        ServiceState,
        OutcomeView,
    ) {
        if !(self.phase is Receiving) {
            self.ignored()
        } else {
            match decoded {
                Ok(command) => (
                    self.at(Phase::Dispatching),
                    OutcomeView::quiet(Action::Dispatch(command)),
                ),
                Err(error) => (
                    self.at(Phase::Idle),
                    OutcomeView {
                        action: Action::NextIteration,
                        diagnostics: if self.report_discarded {
                            seq![Diagnostic::Discarded(error)]
                        } else {
                            Seq::empty()
                        },
                    },
                ),
            }
        }
    }

    /// The dispatcher is done: a failure is logged, the sample is checked
    /// against the threshold and added to the batch, and the iteration is
    /// over whether the dispatch succeeded or not.
    pub open spec fn after_dispatch(self, succeeded: bool, timing: TimingSample) -> (
        ServiceState,
        OutcomeView,
    ) {
        if self.phase is Dispatching {
            let (stats, mean) = self.stats.recorded(timing.spec_total_nanos());
            (
                ServiceState { phase: Phase::Idle, stats, ..self },
                OutcomeView {
                    action: Action::NextIteration,
                    diagnostics: dispatch_entries(succeeded, timing, mean),
                },
            )
        } else {
            self.ignored()
        }
    }

    /// The state after `event`, and the answer to it.
    pub open spec fn transition(self, event: Event) -> (ServiceState, OutcomeView) {
        match event {
            Event::Bound => self.after_bind(true),
            Event::BindFailed => self.after_bind(false),
            Event::IterationStarted => self.after_iteration_start(),
            Event::Datagram(bytes) => self.after_decode(decoded(bytes@)),
            Event::ReceiveFailed => self.after_receive_failure(),
            Event::Dispatched { succeeded, timing } => self.after_dispatch(succeeded, timing),
        }
    }

    /// The state after all of `events`, in order.
    pub open spec fn after_all(self, events: Seq<Event>) -> ServiceState
        decreases events.len(),
    {
        if events.len() == 0 {
            self
        } else {
            self.after_all(events.drop_last()).transition(events.last()).0
        }
    }

    /// The answers to `events`, one for each.
    pub open spec fn answers(self, events: Seq<Event>) -> Seq<OutcomeView> {
        Seq::new(events.len(), |i: int| self.after_all(events.take(i)).transition(events[i]).1)
    }
}

/// The log entries for a finished dispatch, in the order in which they are
/// written: the failure, the slow path, the batch mean.
pub open spec fn dispatch_entries(succeeded: bool, timing: TimingSample, mean: Option<nat>) -> Seq<
    Diagnostic,
> {
    let failure = if succeeded {
        Seq::empty()
    } else {
        seq![Diagnostic::DispatchFailed]
    };
    let slow = match timing.spec_slow() {
        Some(entry) => seq![entry],
        None => Seq::empty(),
    };
    let batch = match mean {
        Some(micros) => seq![Diagnostic::BatchMean { micros: micros as u64 }],
        None => Seq::empty(),
    };
    failure + slow + batch
}

/// Service that receives and processes commands from clients.
#[derive(Debug)]
pub struct CommandService {
    phase: Phase,
    report_discarded: bool,
    stats: BatchStats,
}

impl View for CommandService {
    type V = ServiceState;

    closed spec fn view(&self) -> ServiceState {
        ServiceState {
            phase: self.phase,
            report_discarded: self.report_discarded,
            stats: self.stats@,
        }
    }
}

impl CommandService {
    /// Creates a service that has yet to bind its socket. With
    /// `report_discarded`, datagrams that are no command are reported to the
    /// log; without, they are dropped silently.
    pub fn new(report_discarded: bool) -> (service: CommandService)
        ensures
            service@ == ServiceState::initial(report_discarded),
    {
        CommandService { phase: Phase::Starting, report_discarded, stats: BatchStats::new() }
    }

    /// The answer to an event that does not belong to the current phase.
    fn ignore(&self) -> (out: Outcome)
        ensures
            (self@, out@) == self@.ignored(),
    {
        Outcome { action: Action::Ignore, diagnostics: Vec::new() }
    }

    /// Takes note that the socket was bound (`bound`) or could not be.
    pub fn on_bind(&mut self, bound: bool) -> (out: Outcome)
        ensures
            (final(self)@, out@) == old(self)@.after_bind(bound),
    {
        match self.phase {
            Phase::Starting => {
                if bound {
                    self.phase = Phase::Idle;
                    Outcome { action: Action::NextIteration, diagnostics: Vec::new() }
                } else {
                    self.phase = Phase::Fatal;
                    Outcome { action: Action::Abort, diagnostics: Vec::new() }
                }
            },
            _ => self.ignore(),
        }
    }

    /// Begins an iteration.
    pub fn on_iteration_start(&mut self) -> (out: Outcome)
        ensures
            (final(self)@, out@) == old(self)@.after_iteration_start(),
    {
        match self.phase {
            Phase::Idle => {
                self.phase = Phase::Receiving;
                Outcome { action: Action::Receive, diagnostics: Vec::new() }
            },
            _ => self.ignore(),
        }
    }

    /// Takes note that receiving failed.
    pub fn on_receive_failure(&mut self) -> (out: Outcome)
        ensures
            (final(self)@, out@) == old(self)@.after_receive_failure(),
    {
        match self.phase {
            Phase::Receiving => {
                self.phase = Phase::Idle;
                let mut diagnostics = Vec::new();
                diagnostics.push(Diagnostic::ReceiveFailed);
                Outcome { action: Action::NextIteration, diagnostics }
            },
            _ => self.ignore(),
        }
    }

    /// Takes what a datagram decoded to: a command goes to the dispatcher,
    /// anything else is dropped.
    pub fn on_decoded(&mut self, decoded: Result<Command, DecodeError>) -> (out: Outcome)
        ensures
            (final(self)@, out@) == old(self)@.after_decode(decoded),
    {
        match self.phase {
            Phase::Receiving => {
                match decoded {
                    Ok(command) => {
                        self.phase = Phase::Dispatching;
                        Outcome { action: Action::Dispatch(command), diagnostics: Vec::new() }
                    },
                    Err(error) => {
                        self.phase = Phase::Idle;
                        let mut diagnostics = Vec::new();
                        if self.report_discarded {
                            diagnostics.push(Diagnostic::Discarded(error));
                        }
                        Outcome { action: Action::NextIteration, diagnostics }
                    },
                }
            },
            _ => self.ignore(),
        }
    }

    /// Decodes a datagram and takes the result.
    pub fn on_datagram(&mut self, bytes: &[u8]) -> (out: Outcome)
        ensures
            (final(self)@, out@) == old(self)@.after_decode(decoded(bytes@)),
    {
        match self.phase {
            Phase::Receiving => self.on_decoded(decode(bytes)),
            _ => self.ignore(),
        }
    }

    /// Takes note that the dispatcher is done with the command, whether it
    /// `succeeded`, and how long decoding and dispatching took.
    pub fn on_dispatched(&mut self, succeeded: bool, timing: TimingSample) -> (out: Outcome)
        ensures
            (final(self)@, out@) == old(self)@.after_dispatch(succeeded, timing),
    {
        match self.phase {
            Phase::Dispatching => {
                let mut diagnostics = Vec::new();
                if !succeeded {
                    diagnostics.push(Diagnostic::DispatchFailed);
                }
                if let Some(entry) = timing.slow() {
                    diagnostics.push(entry);
                }
                if let Some(micros) = self.stats.record(timing) {
                    diagnostics.push(Diagnostic::BatchMean { micros });
                }
                self.phase = Phase::Idle;
                let out = Outcome { action: Action::NextIteration, diagnostics };
                assert(out@.diagnostics =~= old(self)@.after_dispatch(
                    succeeded,
                    timing,
                ).1.diagnostics);
                out
            },
            _ => self.ignore(),
        }
    }

    /// Advances the machine by one event and says what to do next.
    pub fn step(&mut self, event: Event<'_>) -> (out: Outcome)
        ensures
            (final(self)@, out@) == old(self)@.transition(event),
    {
        match event {
            Event::Bound => self.on_bind(true),
            Event::BindFailed => self.on_bind(false),
            Event::IterationStarted => self.on_iteration_start(),
            Event::Datagram(bytes) => self.on_datagram(bytes),
            Event::ReceiveFailed => self.on_receive_failure(),
            Event::Dispatched { succeeded, timing } => self.on_dispatched(succeeded, timing),
        }
    }

    /// Runs the machine over a recorded sequence of events and returns the
    /// answer to each.
    pub fn run(&mut self, events: &[Event<'_>]) -> (outs: Vec<Outcome>)
        ensures
            final(self)@ == old(self)@.after_all(events@),
            outs.deep_view() == old(self)@.answers(events@),
    {
        let mut outs: Vec<Outcome> = Vec::new();
        let mut i: usize = 0;
        while i < events.len()
            invariant
                i <= events.len(),
                self@ == old(self)@.after_all(events@.take(i as int)),
                outs.deep_view() =~= old(self)@.answers(events@.take(i as int)),
            decreases events.len() - i,
        {
            let ghost done = outs.deep_view();
            let out = self.step(events[i]);
            outs.push(out);
            proof {
                let shorter = events@.take(i as int);
                let longer = events@.take(i + 1);
                assert forall|j: int| 0 <= j <= i implies #[trigger] longer.take(j)
                    == events@.take(j) by {
                }
                assert forall|j: int| 0 <= j < i implies #[trigger] shorter.take(j)
                    == events@.take(j) by {
                }
                assert(outs.deep_view() =~= done.push(out@));
            }
            i += 1;
        }
        assert(events@.take(events.len() as int) =~= events@);
        outs
    }

    /// Where the loop stands.
    pub fn phase(&self) -> (phase: Phase)
        ensures
            phase == self@.phase,
    {
        self.phase
    }

    /// Commands processed since the last batch report.
    pub fn pending(&self) -> (count: u32)
        ensures
            count == self@.stats.count,
            self@.stats.valid(),
    {
        self.stats.count()
    }
}

} // verus!
