//! What a session that succeeds has done.

use vstd::prelude::*;

use crate::error::ErrorView;
use crate::span::Span;

use super::coordination::{after_steps, Step};
use super::session::{
    coordinator_conclusion, coordinator_joined, coordinator_start, session_result,
    CoordinatorView, SessionMode, SessionStatistics, StopReason,
};
use super::transparency::{
    all_addressable, buffered, reception_is_transparent, rx_run, stays_cancelled,
    transmission_is_accounted, transmission_is_transparent, transmitters_report_once, tx_run,
    uncancelled, RxHistory, TxHistory,
};
use super::transport::Counters;
use super::worker::{
    counted, payload, RxEventView, RxState, SubmitPolicy, TxEventView, TxState, WorkerEventView,
};

verus! {

/// Whether the coordinator was told of a worker event in these steps.
pub open spec fn told(steps: Seq<Step>, event: WorkerEventView) -> bool {
    exists|i: int|
        0 <= i < steps.len() && ((#[trigger] steps[i]) matches Step::Event { event: heard, .. }
            && heard == event)
}

/// Whether what the coordinator heard of the transmit worker is what the worker said: its
/// report, and that it left once it had stopped.
pub open spec fn hears_transmitter(steps: Seq<Step>, tx: TxHistory) -> bool {
    &&& tx.report matches Some(report) ==> told(steps, report)
    &&& forall|reason: StopReason| #[trigger]
        told(steps, WorkerEventView::TxDrained(reason)) ==> tx.report == Some(
            WorkerEventView::TxDrained(reason),
        )
    &&& told(steps, WorkerEventView::TxStopped) ==> tx.worker.state == TxState::Stopped
}

/// Whether what the coordinator heard of the receive worker is what the worker said: its error,
/// and that it left once it had stopped.
pub open spec fn hears_receiver(steps: Seq<Step>, rx: RxHistory) -> bool {
    &&& rx.failure matches Some(error) ==> told(steps, WorkerEventView::WorkerError(error))
    &&& told(steps, WorkerEventView::RxStopped) ==> rx.worker.state == RxState::Stopped
}

/// The final statistics of a session.
pub open spec fn final_statistics(tx: TxHistory, rx: RxHistory) -> SessionStatistics {
    SessionStatistics {
        tx_bytes_accepted: tx.worker.accepted,
        tx_bytes_completed: tx.worker.completed,
        rx_bytes: rx.worker.received,
    }
}

/// What an event that was told has done to the coordinator. `report` is the one reason with
/// which the transmitter can have drained.
spec fn heeded(c: CoordinatorView, steps: Seq<Step>, report: StopReason) -> bool {
    &&& forall|error: ErrorView| #[trigger]
        told(steps, WorkerEventView::WorkerError(error)) ==> c.failure is Some
    &&& c.tx_stopped ==> told(steps, WorkerEventView::TxStopped)
    &&& c.rx_stopped ==> told(steps, WorkerEventView::RxStopped)
    &&& report == StopReason::Cancelled ==> {
        &&& c.drained_at is None
        &&& c.stop_reason is None || c.stop_reason == Some(StopReason::Cancelled)
        &&& told(steps, WorkerEventView::TxDrained(report)) && !c.observer_failed ==> c.stop_reason
            == Some(StopReason::Cancelled)
    }
}

/// Whether the transmitter can have drained with one reason only.
spec fn drains_with(steps: Seq<Step>, report: StopReason) -> bool {
    forall|reason: StopReason| #[trigger]
        told(steps, WorkerEventView::TxDrained(reason)) ==> reason == report
}

/// What was told in fewer steps was told in all, and the rest in the last one.
proof fn lemma_told(steps: Seq<Step>, event: WorkerEventView)
    requires
        steps.len() > 0,
    ensures
        told(steps, event) == (told(steps.drop_last(), event) || (steps.last() matches Step::Event {
            event: heard,
            ..
        } && heard == event)),
{
    let before = steps.drop_last();
    if told(before, event) {
        let i = choose|i: int|
            0 <= i < before.len() && ((#[trigger] before[i]) matches Step::Event {
                event: heard,
                ..
            } && heard == event);
        assert(steps[i] == before[i]);
    }
    if told(steps, event) {
        let i = choose|i: int|
            0 <= i < steps.len() && ((#[trigger] steps[i]) matches Step::Event {
                event: heard,
                ..
            } && heard == event);
        if i < before.len() {
            assert(before[i] == steps[i]);
        }
    }
    assert(steps.last() == steps[steps.len() - 1]);
}

/// The coordinator heeds every event.
proof fn lemma_heeded(
    mode: SessionMode,
    rx_idle_timeout: nat,
    drain_timeout: nat,
    steps: Seq<Step>,
    report: StopReason,
)
    requires
        drains_with(steps, report),
    ensures
        heeded(
            after_steps(coordinator_start(mode, rx_idle_timeout, drain_timeout), steps),
            steps,
            report,
        ),
    decreases steps.len(),
{
    let start = coordinator_start(mode, rx_idle_timeout, drain_timeout);
    if steps.len() > 0 {
        let before = steps.drop_last();
        assert forall|reason: StopReason| #[trigger]
            told(before, WorkerEventView::TxDrained(reason)) implies reason == report by {
            lemma_told(steps, WorkerEventView::TxDrained(reason));
        }
        lemma_heeded(mode, rx_idle_timeout, drain_timeout, before, report);
        let earlier = after_steps(start, before);
        let c = after_steps(start, steps);
        assert forall|error: ErrorView| #[trigger]
            told(steps, WorkerEventView::WorkerError(error)) implies c.failure is Some by {
            lemma_told(steps, WorkerEventView::WorkerError(error));
        }
        lemma_told(steps, WorkerEventView::TxStopped);
        lemma_told(steps, WorkerEventView::RxStopped);
        lemma_told(steps, WorkerEventView::TxDrained(report));
        if let Step::Event { event, .. } = steps.last() {
            if let WorkerEventView::TxDrained(reason) = event {
                lemma_told(steps, event);
                assert(told(steps, WorkerEventView::TxDrained(reason)));
            }
        }
    }
}

/// A session that succeeds has done its work. Given that both workers have left, and that what
/// they reported reached the coordinator:
///
/// - every byte that arrived is delivered, and the report counts them;
/// - unless the reason is a cancellation, the transmitter reported that it drained, and every
///   byte that the transport accepted is confirmed complete;
/// - a stream that ends for another reason than a cancellation was forwarded byte for byte, to
///   its end;
/// - a console that saw no cancellation transmitted and echoed everything before its escape.
pub proof fn success_means_completion(
    mode: SessionMode,
    submit: SubmitPolicy,
    rx_idle_timeout: nat,
    drain_timeout: Span,
    tx_events: Seq<TxEventView>,
    capacity: usize,
    rx_events: Seq<(RxEventView, Seq<u8>)>,
    steps: Seq<Step>,
    tx_panicked: bool,
    rx_panicked: bool,
    refusal: Option<ErrorView>,
    hardware: Counters,
)
    requires
        stays_cancelled(tx_events),
        all_addressable(tx_events),
        buffered(capacity, rx_events),
        hears_transmitter(steps, tx_run(mode, submit, drain_timeout, tx_events)),
        hears_receiver(steps, rx_run(capacity, rx_events)),
        ({
            let end = after_steps(
                coordinator_start(mode, rx_idle_timeout, drain_timeout@),
                steps,
            );
            end.tx_stopped && end.rx_stopped
        }),
    ensures
        ({
            let tx = tx_run(mode, submit, drain_timeout, tx_events);
            let rx = rx_run(capacity, rx_events);
            let end = after_steps(
                coordinator_start(mode, rx_idle_timeout, drain_timeout@),
                steps,
            );
            let result = session_result(
                coordinator_conclusion(coordinator_joined(end, tx_panicked, rx_panicked)),
                refusal,
                final_statistics(tx, rx),
                hardware,
            );
            result matches Ok(report) ==> {
                &&& rx.delivered == rx.arrived
                &&& report.statistics.rx_bytes == counted(rx.arrived.len() as int)
                &&& report.statistics.tx_bytes_accepted == counted(tx.accepted.len() as int)
                &&& report.reason != StopReason::Cancelled ==> {
                    &&& tx.report matches Some(WorkerEventView::TxDrained(reason)) && reason
                        != StopReason::Cancelled
                    &&& report.statistics.tx_bytes_completed
                        == report.statistics.tx_bytes_accepted
                    &&& mode == SessionMode::Stream ==> tx.accepted == tx.input
                    &&& uncancelled(tx_events) ==> tx.accepted == payload(mode, tx.input)
                    &&& uncancelled(tx_events) && mode == SessionMode::Console ==> tx.echoed
                        == tx.accepted
                }
            }
        }),
{
    let tx = tx_run(mode, submit, drain_timeout, tx_events);
    let start = coordinator_start(mode, rx_idle_timeout, drain_timeout@);
    let end = after_steps(start, steps);
    let report = match tx.report {
        Some(WorkerEventView::TxDrained(reason)) => reason,
        _ => StopReason::Cancelled,
    };
    assert(drains_with(steps, report));
    lemma_heeded(mode, rx_idle_timeout, drain_timeout@, steps, report);
    transmission_is_transparent(mode, submit, drain_timeout, tx_events);
    transmission_is_accounted(mode, submit, drain_timeout, tx_events);
    transmitters_report_once(mode, submit, drain_timeout, tx_events);
    reception_is_transparent(capacity, rx_events);
    let rx = rx_run(capacity, rx_events);
    if end.failure is None && !end.observer_failed {
        assert(rx.failure is None) by {
            if rx.failure is Some {
                assert(told(steps, WorkerEventView::WorkerError(rx.failure->0)));
            }
        }
        assert(tx.worker.state == TxState::Stopped);
        let said = tx.report->0;
        assert(told(steps, said));
        assert(said is TxDrained) by {
            if let WorkerEventView::WorkerError(error) = said {
                assert(told(steps, WorkerEventView::WorkerError(error)));
            }
        }
        assert(said == WorkerEventView::TxDrained(report));
        if report == StopReason::Cancelled {
            assert(end.stop_reason == Some(StopReason::Cancelled));
        } else {
            assert(mode == SessionMode::Stream ==> report == StopReason::RxIdle);
            assert(mode == SessionMode::Stream ==> tx.accepted == tx.input);
        }
    }
}

}
