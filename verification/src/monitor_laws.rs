//! What holds of the monitor at every step and over every run of events:
//! the buffer and its timing stay in line, every byte read leaves in
//! exactly one dataset, and other tasks get their turn.

use crate::framer::{complete_lines, CompletedDatasetView, CompletionReason};
use crate::serial_handler::{
    line_events, ConnectionState, MonitorActionView, MonitorEventView, MonitorPhase,
    SerialMonitorView, RECONNECT_DELAY_MS,
};
use vstd::prelude::*;

verus! {

/// The datasets that the actions dispatch, in order.
pub open spec fn dispatched(actions: Seq<MonitorActionView>) -> Seq<CompletedDatasetView>
    decreases actions.len(),
{
    if actions.len() == 0 {
        Seq::<CompletedDatasetView>::empty()
    } else {
        match actions.last() {
            MonitorActionView::Dispatch(dataset) => dispatched(actions.drop_last()).push(dataset),
            _ => dispatched(actions.drop_last()),
        }
    }
}

/// The text of the datasets, one after the other.
pub open spec fn dataset_texts(datasets: Seq<CompletedDatasetView>) -> Seq<char>
    decreases datasets.len(),
{
    if datasets.len() == 0 {
        Seq::<char>::empty()
    } else {
        dataset_texts(datasets.drop_last()) + datasets.last().csv_data
    }
}

/// The data that the monitor takes in with `event`: the chunk of a read
/// that it waited for, and nothing else.
pub open spec fn accepted(monitor: SerialMonitorView, event: MonitorEventView) -> Seq<char> {
    if monitor.phase == MonitorPhase::Reading && event is ChunkRead {
        event->ChunkRead_0
    } else {
        Seq::<char>::empty()
    }
}

/// The actions that publish display lines dispatch nothing.
pub proof fn lemma_line_events_dispatch_nothing(lines: Seq<Seq<char>>)
    ensures
        dispatched(line_events(lines)) == Seq::<CompletedDatasetView>::empty(),
    decreases lines.len(),
{
    if lines.len() > 0 {
        lemma_line_events_dispatch_nothing(lines.drop_last());
        assert(line_events(lines).drop_last() == line_events(lines.drop_last()));
    }
}

/// Among up to four actions of which only the first may be a dispatch,
/// that one is all that is dispatched.
proof fn lemma_dispatched_first_only(actions: Seq<MonitorActionView>)
    requires
        actions.len() <= 4,
        forall|i: int| 1 <= i < actions.len() ==> !(#[trigger] actions[i] is Dispatch),
    ensures
        dispatched(actions) == if actions.len() > 0 && actions[0] is Dispatch {
            seq![actions[0]->Dispatch_0]
        } else {
            Seq::<CompletedDatasetView>::empty()
        },
    decreases actions.len(),
{
    if actions.len() > 0 {
        let front = actions.drop_last();
        assert forall|i: int| 1 <= i < front.len() implies !(#[trigger] front[i] is Dispatch) by {
            assert(front[i] == actions[i]);
        }
        lemma_dispatched_first_only(front);
        if actions.len() > 1 {
            assert(front[0] == actions[0]);
            assert(!(actions[actions.len() - 1] is Dispatch));
        }
    }
}

/// What the actions of a step dispatch: the dataset gathered, where the
/// step completes one, and nothing else.
pub proof fn lemma_step_dispatch(monitor: SerialMonitorView, event: MonitorEventView, now_ms: u64)
    ensures
        dispatched(monitor.step(event, now_ms).1) == if monitor.phase == MonitorPhase::Reading && (
        event is ReadFailed || (event is ChunkRead && event->ChunkRead_0.len() == 0))
            && monitor.data.is_idle(now_ms) {
            seq![
                monitor.data.completed(
                    monitor.port,
                    monitor.baud_rate,
                    CompletionReason::IdleTimeout,
                    now_ms,
                )->Some_0,
            ]
        } else if monitor.phase == MonitorPhase::Probing && event
            == (MonitorEventView::PresenceChecked { present: false })
            && monitor.data.csv_buffer.len() > 0 {
            seq![
                monitor.data.completed(
                    monitor.port,
                    monitor.baud_rate,
                    CompletionReason::Disconnect,
                    now_ms,
                )->Some_0,
            ]
        } else {
            Seq::<CompletedDatasetView>::empty()
        },
{
    let actions = monitor.step(event, now_ms).1;
    if monitor.phase == MonitorPhase::Reading && event is ChunkRead && event->ChunkRead_0.len()
        > 0 {
        let lines = complete_lines(monitor.data.line_buffer + event->ChunkRead_0);
        lemma_line_events_dispatch_nothing(lines);
        assert(actions.drop_last() == line_events(lines));
    } else {
        lemma_dispatched_first_only(actions);
    }
}

/// Every step keeps the timing marks in line with the buffer and leaves
/// the buffer empty whenever the port is closed; the port, the baud rate
/// and the idle gap never change.
pub proof fn lemma_step_keeps_invariant(
    monitor: SerialMonitorView,
    event: MonitorEventView,
    now_ms: u64,
)
    requires
        monitor.is_consistent(),
    ensures
        monitor.step(event, now_ms).0.is_consistent(),
        monitor.step(event, now_ms).0.port == monitor.port,
        monitor.step(event, now_ms).0.baud_rate == monitor.baud_rate,
        monitor.step(event, now_ms).0.data.idle_gap_ms == monitor.data.idle_gap_ms,
{
}

/// A step dispatches at most one dataset, and only what was gathered: the
/// dataset is the whole buffer, which is empty afterwards.
pub proof fn lemma_step_dispatches_once(
    monitor: SerialMonitorView,
    event: MonitorEventView,
    now_ms: u64,
)
    ensures
        dispatched(monitor.step(event, now_ms).1).len() <= 1,
        dispatched(monitor.step(event, now_ms).1).len() == 1 ==> {
            &&& monitor.data.csv_buffer.len() > 0
            &&& monitor.step(event, now_ms).0.data.csv_buffer.len() == 0
            &&& dispatched(monitor.step(event, now_ms).1)[0].csv_data == monitor.data.csv_buffer
        },
{
    lemma_step_dispatch(monitor, event, now_ms);
}

/// No data is lost and none is dispatched twice: what was in the buffer
/// and what the step takes in is what the step dispatches and what stays
/// in the buffer, in this order.
pub proof fn lemma_step_conserves_data(
    monitor: SerialMonitorView,
    event: MonitorEventView,
    now_ms: u64,
)
    ensures
        monitor.data.csv_buffer + accepted(monitor, event) == dataset_texts(
            dispatched(monitor.step(event, now_ms).1),
        ) + monitor.step(event, now_ms).0.data.csv_buffer,
{
    lemma_step_dispatch(monitor, event, now_ms);
    let sent = dispatched(monitor.step(event, now_ms).1);
    let after = monitor.step(event, now_ms).0;
    if sent.len() == 0 {
        assert(dataset_texts(sent) == Seq::<char>::empty());
        assert(monitor.data.csv_buffer + accepted(monitor, event) == after.data.csv_buffer);
        assert(Seq::<char>::empty() + after.data.csv_buffer == after.data.csv_buffer);
    } else {
        assert(sent.len() == 1);
        assert(sent.last().csv_data == monitor.data.csv_buffer);
        assert(sent.drop_last() == Seq::<CompletedDatasetView>::empty());
        assert(dataset_texts(sent.drop_last()) == Seq::<char>::empty());
        assert(dataset_texts(sent) == Seq::<char>::empty() + monitor.data.csv_buffer);
        assert(accepted(monitor, event) == Seq::<char>::empty());
        assert(monitor.data.csv_buffer + Seq::<char>::empty() == Seq::<char>::empty()
            + monitor.data.csv_buffer + after.data.csv_buffer);
    }
}

/// The monitor lets other tasks run at the end of every round. A round is
/// an attempt to open the port that fails, or a read with what follows
/// from it, after the port was opened if need be. Every result that the
/// monitor waits for either leads on within the round, to the first read or
/// to the look for the port, or ends the round with a yield as its last
/// action. So no more than three operations on the port lie between two yields.
pub proof fn lemma_rounds_end_with_yield(
    monitor: SerialMonitorView,
    event: MonitorEventView,
    now_ms: u64,
)
    requires
        monitor.waits_for(event),
    ensures
        ({
            let (after, actions) = monitor.step(event, now_ms);
            if monitor.phase == MonitorPhase::Connecting && event is OpenSucceeded {
                after.phase == MonitorPhase::Reading
            } else if after.phase == MonitorPhase::Probing {
                monitor.phase == MonitorPhase::Reading
            } else {
                actions.len() > 0 && actions.last() is Yield
            }
        }),
{
}

/// When the port has gone while a dataset was being gathered, the dataset is
/// dispatched as completed by the disconnection, whether or not it had
/// been idle; the buffer is cleared, the connection closed, and the status
/// published after the dispatch.
pub proof fn lemma_disconnect_dispatches_pending(monitor: SerialMonitorView, now_ms: u64)
    requires
        monitor.phase == MonitorPhase::Probing,
        monitor.data.csv_buffer.len() > 0,
    ensures
        ({
            let (after, actions) = monitor.step(
                MonitorEventView::PresenceChecked { present: false },
                now_ms,
            );
            &&& actions == seq![
                MonitorActionView::Dispatch(
                    CompletedDatasetView {
                        csv_data: monitor.data.csv_buffer,
                        port: monitor.port,
                        baud_rate: monitor.baud_rate,
                        collection_duration_ms: monitor.data.collection_duration_ms(now_ms),
                        reason: CompletionReason::Disconnect,
                    },
                ),
                monitor.status_action(false),
                MonitorActionView::Sleep { millis: RECONNECT_DELAY_MS },
                MonitorActionView::Yield,
            ]
            &&& dispatched(actions).len() == 1
            &&& after.data.csv_buffer.len() == 0
            &&& after.data.last_data_at is None
            &&& after.data.data_start_at is None
            &&& after.connection() == ConnectionState::Closed
        }),
{
    lemma_step_dispatch(monitor, MonitorEventView::PresenceChecked { present: false }, now_ms);
}

/// The state after the events, each with the time at which it came, and
/// all the actions asked for, in order.
pub open spec fn run(monitor: SerialMonitorView, events: Seq<(MonitorEventView, u64)>) -> (
    SerialMonitorView,
    Seq<MonitorActionView>,
)
    decreases events.len(),
{
    if events.len() == 0 {
        (monitor, Seq::<MonitorActionView>::empty())
    } else {
        let (before, earlier) = run(monitor, events.drop_last());
        let (after, latest) = before.step(events.last().0, events.last().1);
        (after, earlier + latest)
    }
}

/// All the data that the monitor takes in with the events.
pub open spec fn accepted_in_run(monitor: SerialMonitorView, events: Seq<(MonitorEventView, u64)>)
    -> Seq<char>
    decreases events.len(),
{
    if events.len() == 0 {
        Seq::<char>::empty()
    } else {
        accepted_in_run(monitor, events.drop_last()) + accepted(
            run(monitor, events.drop_last()).0,
            events.last().0,
        )
    }
}

/// What two lists of actions dispatch, one after the other.
pub proof fn lemma_dispatched_of_both(a: Seq<MonitorActionView>, b: Seq<MonitorActionView>)
    ensures
        dispatched(a + b) == dispatched(a) + dispatched(b),
    decreases b.len(),
{
    if b.len() == 0 {
        assert(a + b == a);
        assert(dispatched(a) + dispatched(b) == dispatched(a));
    } else {
        lemma_dispatched_of_both(a, b.drop_last());
        assert((a + b).drop_last() == a + b.drop_last());
        assert((a + b).last() == b.last());
        if b.last() is Dispatch {
            assert((dispatched(a) + dispatched(b.drop_last())).push(b.last()->Dispatch_0)
                == dispatched(a) + dispatched(b.drop_last()).push(b.last()->Dispatch_0));
        }
    }
}

/// The text of two lists of datasets, one after the other.
pub proof fn lemma_texts_of_both(a: Seq<CompletedDatasetView>, b: Seq<CompletedDatasetView>)
    ensures
        dataset_texts(a + b) == dataset_texts(a) + dataset_texts(b),
    decreases b.len(),
{
    if b.len() == 0 {
        assert(a + b == a);
        assert(dataset_texts(a) + dataset_texts(b) == dataset_texts(a));
    } else {
        lemma_texts_of_both(a, b.drop_last());
        assert((a + b).drop_last() == a + b.drop_last());
        assert((a + b).last() == b.last());
        assert(dataset_texts(a) + dataset_texts(b.drop_last()) + b.last().csv_data
            == dataset_texts(a) + (dataset_texts(b.drop_last()) + b.last().csv_data));
    }
}

/// Over any run of events the monitor keeps its invariant, and every
/// byte it takes in leaves in exactly one dataset or is still in the
/// buffer: the buffer at the start and the data taken in are the datasets
/// dispatched, in order, and the buffer at the end.
pub proof fn lemma_run_conserves_data(
    monitor: SerialMonitorView,
    events: Seq<(MonitorEventView, u64)>,
)
    requires
        monitor.is_consistent(),
    ensures
        run(monitor, events).0.is_consistent(),
        monitor.data.csv_buffer + accepted_in_run(monitor, events) == dataset_texts(
            dispatched(run(monitor, events).1),
        ) + run(monitor, events).0.data.csv_buffer,
        forall|i: int|
            0 <= i < dispatched(run(monitor, events).1).len() ==> (#[trigger] dispatched(
                run(monitor, events).1,
            )[i]).csv_data.len() > 0,
    decreases events.len(),
{
    if events.len() == 0 {
        assert(dataset_texts(dispatched(run(monitor, events).1)) == Seq::<char>::empty());
        assert(monitor.data.csv_buffer + Seq::<char>::empty() == Seq::<char>::empty()
            + monitor.data.csv_buffer);
    } else {
        let front = events.drop_last();
        let (before, earlier) = run(monitor, front);
        let (event, now_ms) = events.last();
        let (after, latest) = before.step(event, now_ms);
        lemma_run_conserves_data(monitor, front);
        lemma_step_keeps_invariant(before, event, now_ms);
        lemma_step_conserves_data(before, event, now_ms);
        lemma_step_dispatch(before, event, now_ms);
        lemma_dispatched_of_both(earlier, latest);
        lemma_texts_of_both(dispatched(earlier), dispatched(latest));
        let start = monitor.data.csv_buffer;
        let taken = accepted_in_run(monitor, front);
        let more = accepted(before, event);
        let sent = dataset_texts(dispatched(earlier));
        let sent_now = dataset_texts(dispatched(latest));
        assert(start + (taken + more) == (start + taken) + more);
        assert((sent + before.data.csv_buffer) + more == sent + (before.data.csv_buffer + more));
        assert(sent + (sent_now + after.data.csv_buffer) == (sent + sent_now)
            + after.data.csv_buffer);
    }
}

} // verus!
