//! What holds of every run of the reception loop.
//!
//! A run is a sequence of events, whatever they are and in whatever order
//! they come. Only where it is said does a statement speak of a loop that
//! reports its events in turn and does what it is told.

use vstd::prelude::*;
use crate::codec::{decoded, is_encoding, lemma_decodes_encodings_only};
use crate::command::{Command, DecodeError};
use crate::service::{dispatch_entries, Action, Event, OutcomeView, Phase, ServiceState};
use crate::timing::{lemma_count_wraps, over_threshold, BatchView, TimingSample, BATCH_SIZE};

verus! {

/// The phase after the first `n` of `events`.
pub open spec fn phase_at(start: ServiceState, events: Seq<Event>, n: int) -> Phase {
    start.after_all(events.take(n)).phase
}

/// One more event is one more transition.
proof fn lemma_after_one_more(start: ServiceState, events: Seq<Event>, n: int)
    requires
        0 <= n < events.len(),
    ensures
        start.after_all(events.take(n + 1)) == start.after_all(events.take(n)).transition(
            events[n],
        ).0,
{
    assert(events.take(n + 1).drop_last() =~= events.take(n));
}

/// A running loop stays running: no event takes it back to `Starting` or
/// on to `Fatal`.
pub proof fn lemma_running_is_kept(state: ServiceState, event: Event)
    requires
        state.running(),
    ensures
        state.transition(event).0.running(),
{
}

/// The loop never terminates: whatever happens to a running loop, in
/// whatever order and however often, it is still running afterwards.
pub proof fn lemma_never_terminates(start: ServiceState, events: Seq<Event>)
    requires
        start.running(),
    ensures
        start.after_all(events).running(),
    decreases events.len(),
{
    if events.len() > 0 {
        lemma_never_terminates(start, events.drop_last());
        lemma_running_is_kept(start.after_all(events.drop_last()), events.last());
    }
}

/// `Fatal` is entered in one way only: from `Starting`, when the socket
/// cannot be bound.
pub proof fn lemma_fatal_only_at_startup(state: ServiceState, event: Event)
    requires
        state.transition(event).0.phase is Fatal,
    ensures
        state.phase is Fatal || (state.phase is Starting && event is BindFailed),
{
}

/// What one iteration of the loop meets: a datagram or a failure to receive
/// one, and how the dispatch ends should the datagram be a command.
pub struct Round<'a> {
    pub arrival: Event<'a>,
    pub succeeded: bool,
    pub timing: TimingSample,
}

/// The events of one iteration that starts in `state`, as a loop reports them
/// that does what it is told: it dispatches when, and only when, the machine
/// answers the arrival with a command.
pub open spec fn events_of_round(state: ServiceState, round: Round) -> Seq<Event> {
    let begun = seq![Event::IterationStarted, round.arrival];
    if state.after_all(begun).phase is Dispatching {
        begun.push(Event::Dispatched { succeeded: round.succeeded, timing: round.timing })
    } else {
        begun
    }
}

/// The events of the iterations that meet `rounds`, one after the other.
pub open spec fn events_of_rounds(start: ServiceState, rounds: Seq<Round>) -> Seq<Event>
    decreases rounds.len(),
{
    if rounds.len() == 0 {
        Seq::empty()
    } else {
        let before = events_of_rounds(start, rounds.drop_last());
        before + events_of_round(start.after_all(before), rounds.last())
    }
}

/// Whether the machine ignores none of `events`.
pub open spec fn all_accepted(start: ServiceState, events: Seq<Event>) -> bool {
    forall|k: int| 0 <= k < events.len() ==> !(#[trigger] start.answers(events)[k].action is Ignore)
}

/// Running over two sequences of events, one after the other, is running
/// over the first and going on with the second.
proof fn lemma_after_all_concat(start: ServiceState, first: Seq<Event>, second: Seq<Event>)
    ensures
        start.after_all(first + second) == start.after_all(first).after_all(second),
    decreases second.len(),
{
    if second.len() > 0 {
        assert((first + second).drop_last() =~= first + second.drop_last());
        lemma_after_all_concat(start, first, second.drop_last());
    }
}

/// The answers to two sequences of events, one after the other.
proof fn lemma_answers_concat(start: ServiceState, first: Seq<Event>, second: Seq<Event>)
    ensures
        start.answers(first + second) == start.answers(first) + start.after_all(first).answers(
            second,
        ),
{
    let both = first + second;
    let mid = start.after_all(first);
    assert forall|k: int| 0 <= k < both.len() implies start.answers(both)[k] == (start.answers(
        first,
    ) + mid.answers(second))[k] by {
        if k < first.len() {
            assert(both.take(k) =~= first.take(k));
        } else {
            assert(both.take(k) =~= first + second.take(k - first.len()));
            lemma_after_all_concat(start, first, second.take(k - first.len()));
        }
    }
}

/// One iteration from `Idle`: each of its events is accepted, and the loop
/// is idle again.
proof fn lemma_round_is_served(state: ServiceState, round: Round)
    requires
        state.phase is Idle,
        round.arrival is Datagram || round.arrival is ReceiveFailed,
    ensures
        state.after_all(events_of_round(state, round)).phase is Idle,
        all_accepted(state, events_of_round(state, round)),
{
    let events = events_of_round(state, round);
    lemma_after_one_more(state, events, 0);
    lemma_after_one_more(state, events, 1);
    let begun = seq![Event::IterationStarted, round.arrival];
    lemma_after_one_more(state, begun, 0);
    lemma_after_one_more(state, begun, 1);
    if events.len() == 3 {
        lemma_after_one_more(state, events, 2);
    }
}

/// Every datagram is served: a loop that is idle and does what it is told
/// goes through any number of iterations, whatever arrives in each and
/// however its dispatch ends, without any of its events being ignored, and is
/// idle again after the last.
pub proof fn lemma_every_round_is_served(start: ServiceState, rounds: Seq<Round>)
    requires
        start.phase is Idle,
        forall|i: int|
            0 <= i < rounds.len() ==> (#[trigger] rounds[i]).arrival is Datagram
                || rounds[i].arrival is ReceiveFailed,
    ensures
        start.after_all(events_of_rounds(start, rounds)).phase is Idle,
        all_accepted(start, events_of_rounds(start, rounds)),
    decreases rounds.len(),
{
    if rounds.len() > 0 {
        let earlier = rounds.drop_last();
        assert forall|i: int| 0 <= i < earlier.len() implies (#[trigger] earlier[i]).arrival
            is Datagram || earlier[i].arrival is ReceiveFailed by {
        }
        lemma_every_round_is_served(start, earlier);
        let before = events_of_rounds(start, earlier);
        let mid = start.after_all(before);
        let last = events_of_round(mid, rounds.last());
        lemma_round_is_served(mid, rounds.last());
        lemma_after_all_concat(start, before, last);
        lemma_answers_concat(start, before, last);
    }
}

/// A command is dispatched when, and only when, a datagram that decodes to it
/// arrives while the loop is receiving.
pub proof fn lemma_dispatch_is_of_the_datagram(
    state: ServiceState,
    event: Event,
    command: Command,
)
    ensures
        state.transition(event).1.action == Action::Dispatch(command) <==> {
            &&& state.phase is Receiving
            &&& event matches Event::Datagram(bytes)
            &&& decoded(bytes@) == Ok::<Command, DecodeError>(command)
        },
{
}

/// A datagram that is no valid encoding of a command is never dispatched, and
/// does not stop the loop from taking the next one.
pub proof fn lemma_undecodable_is_dropped(state: ServiceState, bytes: &[u8])
    requires
        !is_encoding(bytes@),
    ensures
        !(state.transition(Event::Datagram(bytes)).1.action is Dispatch),
        state.phase is Receiving ==> state.transition(Event::Datagram(bytes)).0.phase is Idle,
        state.transition(Event::Datagram(bytes)).0.stats == state.stats,
{
    lemma_decodes_encodings_only(bytes@);
}

/// While a command is with the dispatcher, no other is handed out, and only
/// the end of the dispatch moves the loop on.
pub proof fn lemma_dispatching_waits(state: ServiceState, event: Event)
    requires
        state.phase is Dispatching,
    ensures
        !(state.transition(event).1.action is Dispatch),
        !(event is Dispatched) ==> state.transition(event) == state.ignored(),
{
}

/// A loop that is dispatching at `from` and no longer at `to` has seen the
/// end of that dispatch in between.
proof fn lemma_leaves_dispatching(start: ServiceState, events: Seq<Event>, from: int, to: int)
    requires
        0 <= from <= to <= events.len(),
        phase_at(start, events, from) is Dispatching,
        !(phase_at(start, events, to) is Dispatching),
    ensures
        exists|k: int|
            from <= k < to && #[trigger] phase_at(start, events, k) is Dispatching
                && events[k] is Dispatched,
    decreases to - from,
{
    if from < to {
        lemma_after_one_more(start, events, from);
        let state = start.after_all(events.take(from));
        lemma_dispatching_waits(state, events[from]);
        if !(events[from] is Dispatched) {
            lemma_leaves_dispatching(start, events, from + 1, to);
        }
    }
}

/// One command at a time, in the order of arrival: between two commands that
/// are handed to the dispatcher, the dispatch of the first one has ended.
pub proof fn lemma_one_command_in_flight(
    start: ServiceState,
    events: Seq<Event>,
    first: int,
    second: int,
)
    requires
        0 <= first < second < events.len(),
        start.answers(events)[first].action is Dispatch,
        start.answers(events)[second].action is Dispatch,
    ensures
        exists|k: int|
            first < k < second && #[trigger] phase_at(start, events, k) is Dispatching
                && events[k] is Dispatched,
{
    lemma_after_one_more(start, events, first);
    lemma_leaves_dispatching(start, events, first + 1, second);
}

/// The samples of the dispatches that `events` bring to an end, in order.
pub open spec fn samples_of(start: ServiceState, events: Seq<Event>) -> Seq<nat>
    decreases events.len(),
{
    if events.len() == 0 {
        Seq::empty()
    } else {
        let before = samples_of(start, events.drop_last());
        match events.last() {
            Event::Dispatched { timing, .. } => if start.after_all(
                events.drop_last(),
            ).phase is Dispatching {
                before.push(timing.spec_total_nanos())
            } else {
                before
            },
            _ => before,
        }
    }
}

/// The accumulator holds the processed commands and nothing else: after any
/// events it is what recording the sample of each finished dispatch, in
/// order, makes of it.
pub proof fn lemma_stats_follow_dispatches(start: ServiceState, events: Seq<Event>)
    ensures
        start.after_all(events).stats == start.stats.recorded_all(samples_of(start, events)),
        start.after_all(events).report_discarded == start.report_discarded,
    decreases events.len(),
{
    if events.len() > 0 {
        lemma_stats_follow_dispatches(start, events.drop_last());
        let before = samples_of(start, events.drop_last());
        match events.last() {
            Event::Dispatched { timing, .. } => {
                if start.after_all(events.drop_last()).phase is Dispatching {
                    assert(before.push(timing.spec_total_nanos()).drop_last() =~= before);
                }
            },
            _ => {},
        }
    }
}

/// Whether `answer` carries the mean of a batch.
pub open spec fn reports_mean(answer: OutcomeView) -> bool {
    exists|i: int| 0 <= i < answer.diagnostics.len() && answer.diagnostics[i] is BatchMean
}

/// Whether `answer` carries a slow-path entry for a command.
pub open spec fn reports_slow_command(answer: OutcomeView) -> bool {
    exists|i: int| 0 <= i < answer.diagnostics.len() && answer.diagnostics[i] is SlowCommand
}

/// Which entries a finished dispatch logs: the mean where there is one, and
/// the slow path where the sample is over the threshold.
proof fn lemma_dispatch_entries(succeeded: bool, timing: TimingSample, mean: Option<nat>)
    ensures
        reports_mean(
            OutcomeView {
                action: Action::NextIteration,
                diagnostics: dispatch_entries(succeeded, timing, mean),
            },
        ) <==> mean is Some,
        reports_slow_command(
            OutcomeView {
                action: Action::NextIteration,
                diagnostics: dispatch_entries(succeeded, timing, mean),
            },
        ) <==> over_threshold(timing.spec_total_nanos() as int),
{
    let entries = dispatch_entries(succeeded, timing, mean);
    let before_slow: int = if succeeded {
        0
    } else {
        1
    };
    let before_mean: int = before_slow + if timing.spec_slow() is Some {
        1int
    } else {
        0int
    };
    if mean is Some {
        assert(entries[before_mean] is BatchMean);
    }
    if timing.spec_slow() is Some {
        assert(entries[before_slow] is SlowCommand);
    }
}

/// A command that took more than the threshold, decoding and dispatching
/// together, is reported as slow when its dispatch ends, and no other is.
pub proof fn lemma_slow_command_is_reported(
    state: ServiceState,
    succeeded: bool,
    timing: TimingSample,
)
    requires
        state.phase is Dispatching,
    ensures
        reports_slow_command(state.transition(Event::Dispatched { succeeded, timing }).1)
            <==> over_threshold(timing.decode_nanos + timing.dispatch_nanos),
{
    let mean = state.stats.recorded(timing.spec_total_nanos()).1;
    lemma_dispatch_entries(succeeded, timing, mean);
}

/// Which event carries the mean: the one that ends the dispatch that fills
/// the batch. The accumulator is empty after it.
proof fn lemma_mean_of_step(state: ServiceState, event: Event)
    ensures
        reports_mean(state.transition(event).1) <==> {
            &&& event is Dispatched
            &&& state.phase is Dispatching
            &&& state.stats.count + 1 == BATCH_SIZE
        },
        reports_mean(state.transition(event).1) ==> state.transition(event).0.stats
            == BatchView::empty(),
{
    match event {
        Event::Dispatched { succeeded, timing } => {
            if state.phase is Dispatching {
                let mean = state.stats.recorded(timing.spec_total_nanos()).1;
                lemma_dispatch_entries(succeeded, timing, mean);
            }
        },
        _ => {},
    }
}

/// One more fills the batch exactly where it makes a multiple of its size.
proof fn lemma_fills_at_multiples(done: int)
    requires
        0 <= done,
    ensures
        (done % (BATCH_SIZE as int) + 1 == BATCH_SIZE) <==> ((done + 1) % (BATCH_SIZE as int) == 0),
{
}

/// The mean is reported with every hundredth processed command, and with no
/// other event: the answer to an event carries a batch mean exactly where the
/// event ends a dispatch and the dispatches that ended, this one included and
/// those in the accumulator at the start counted in, are a multiple of the
/// batch size. The accumulator is empty after that event.
pub proof fn lemma_mean_every_hundredth(start: ServiceState, events: Seq<Event>, i: int)
    requires
        start.stats.valid(),
        0 <= i < events.len(),
    ensures
        reports_mean(start.answers(events)[i]) <==> {
            &&& events[i] is Dispatched
            &&& phase_at(start, events, i) is Dispatching
            &&& (start.stats.count + samples_of(start, events.take(i)).len() + 1) % (
            BATCH_SIZE as nat) == 0
        },
        reports_mean(start.answers(events)[i]) ==> start.after_all(events.take(i + 1)).stats
            == BatchView::empty(),
{
    let before = start.after_all(events.take(i));
    let done = samples_of(start, events.take(i));
    lemma_stats_follow_dispatches(start, events.take(i));
    lemma_count_wraps(start.stats, done);
    lemma_after_one_more(start, events, i);
    lemma_mean_of_step(before, events[i]);
    lemma_fills_at_multiples((start.stats.count + done.len()) as int);
}

} // verus!
