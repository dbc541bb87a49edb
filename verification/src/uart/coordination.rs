//! What the coordinator keeps over a whole session.

use vstd::prelude::*;

use crate::error::{error_view, Category, ErrorView};
use crate::span::deadline_after;

use super::session::{
    cancellation_is_news, coordinator_conclusion, coordinator_handle, coordinator_joined,
    coordinator_start, coordinator_tick, is_idle, notice_cancellation, session_result,
    ConclusionView, CoordinatorView, SessionMode, SessionStatistics, StopReason,
};
use super::transport::Counters;
use super::worker::WorkerEventView;

verus! {

/// One step of a session.
pub enum Step {
    /// The coordinator looked at the clock, the cancellation flag and the last reception.
    Tick { now: nat, cancelled: bool, last_rx: nat },
    /// A worker event arrived, with the observer's error if it refused.
    Event { now: nat, event: WorkerEventView, refusal: Option<ErrorView> },
}

/// The state after one more step.
pub open spec fn after_step(c: CoordinatorView, step: Step) -> CoordinatorView {
    match step {
        Step::Tick { now, cancelled, last_rx } => coordinator_tick(c, now, cancelled, last_rx).0,
        Step::Event { now, event, refusal } => coordinator_handle(c, now, event, refusal).0,
    }
}

/// The state after some steps.
pub open spec fn after_steps(c: CoordinatorView, steps: Seq<Step>) -> CoordinatorView
    decreases steps.len(),
{
    if steps.len() == 0 {
        c
    } else {
        after_step(after_steps(c, steps.drop_last()), steps.last())
    }
}

/// Whether the observer refused nothing in these steps.
pub open spec fn unrefused(steps: Seq<Step>) -> bool {
    forall|i: int|
        0 <= i < steps.len() ==> ((#[trigger] steps[i]) matches Step::Event { refusal, .. }
            ==> refusal is None)
}

/// Failures are final: once a session has failed, no later step and no worker's exit makes it
/// succeed, and unless the observer refuses an event the first failure is the one reported. An
/// observer that refused is not asked again, so its own error stays. Workers that left stay
/// gone, and the mode and both intervals never change.
pub proof fn failures_are_final(
    c: CoordinatorView,
    steps: Seq<Step>,
    tx_panicked: bool,
    rx_panicked: bool,
)
    ensures
        ({
            let end = after_steps(c, steps);
            let joined = coordinator_joined(end, tx_panicked, rx_panicked);
            &&& c.failure is Some ==> end.failure is Some && !(coordinator_conclusion(
                joined,
            ) is Succeed)
            &&& c.failure is Some && unrefused(steps) ==> joined.failure == c.failure
            &&& c.observer_failed ==> end.observer_failed
            &&& c.failure is Some && c.observer_failed ==> joined.failure == c.failure
            &&& c.tx_stopped ==> end.tx_stopped
            &&& c.rx_stopped ==> end.rx_stopped
            &&& end.mode == c.mode
            &&& end.rx_idle_timeout == c.rx_idle_timeout
            &&& end.drain_timeout == c.drain_timeout
        }),
    decreases steps.len(),
{
    if steps.len() > 0 {
        let before = steps.drop_last();
        failures_are_final(c, before, tx_panicked, rx_panicked);
        if unrefused(steps) {
            assert forall|i: int| 0 <= i < before.len() implies ((#[trigger] before[i]) matches Step::Event {
                refusal,
                ..
            } ==> refusal is None) by {
                assert(before[i] == steps[i]);
            }
            assert(steps.last() == steps[steps.len() - 1]);
        }
    }
}

/// A cancellation that the coordinator notices ends the session with a timeout error, unless
/// the observer refuses an event.
pub proof fn cancellation_is_reported(
    c: CoordinatorView,
    now: nat,
    last_rx: nat,
    steps: Seq<Step>,
    tx_panicked: bool,
    rx_panicked: bool,
)
    requires
        cancellation_is_news(c, true),
        !c.observer_failed,
        unrefused(steps),
    ensures
        coordinator_conclusion(
            coordinator_joined(
                after_steps(coordinator_tick(c, now, true, last_rx).0, steps),
                tx_panicked,
                rx_panicked,
            ),
        ) matches ConclusionView::Fail { error, .. } && error == error_view(
            Category::Timeout,
            "session cancelled by signal"@,
        ),
{
    let noticed = coordinator_tick(c, now, true, last_rx).0;
    failures_are_final(noticed, steps, tx_panicked, rx_panicked);
    lemma_observer_content(noticed, steps);
}

/// An observer that refuses nothing is told everything.
proof fn lemma_observer_content(c: CoordinatorView, steps: Seq<Step>)
    requires
        unrefused(steps),
    ensures
        after_steps(c, steps).observer_failed == c.observer_failed,
    decreases steps.len(),
{
    if steps.len() > 0 {
        let before = steps.drop_last();
        assert forall|i: int| 0 <= i < before.len() implies ((#[trigger] before[i]) matches Step::Event {
            refusal,
            ..
        } ==> refusal is None) by {
            assert(before[i] == steps[i]);
        }
        lemma_observer_content(c, before);
        assert(steps.last() == steps[steps.len() - 1]);
    }
}

/// A shutdown starts its clock: a step that cancels the transport leaves the workers a deadline.
/// It is one drain timeout away where they had none before, and a tick never moves one that they
/// had, unless it notices a cancellation, which is a failure.
pub proof fn shutdown_has_a_deadline(c: CoordinatorView, now: nat, cancelled: bool, last_rx: nat)
    ensures
        ({
            let (ticked, commands) = coordinator_tick(c, now, cancelled, last_rx);
            &&& commands.cancel_transport ==> ticked.join_deadline is Some
            &&& ticked.join_deadline is Some && c.join_deadline is None ==> ticked.join_deadline
                == Some(deadline_after(now, c.drain_timeout))
            &&& c.join_deadline is Some ==> ticked.join_deadline == c.join_deadline
                || ticked.failure is Some
        }),
        forall|event: WorkerEventView, refusal: Option<ErrorView>|
            (#[trigger] coordinator_handle(c, now, event, refusal)).1.cancel_transport
                ==> coordinator_handle(c, now, event, refusal).0.join_deadline == Some(
                deadline_after(now, c.drain_timeout),
            ) && coordinator_handle(c, now, event, refusal).1.raise_cancelled,
{
}

/// Whether the transmitter did not finish in these steps.
pub open spec fn undrained(steps: Seq<Step>) -> bool {
    forall|i: int|
        0 <= i < steps.len() ==> ((#[trigger] steps[i]) matches Step::Event { event, .. }
            ==> !(event is TxDrained))
}

/// Bounded shutdown: once the workers have a deadline, a tick at or after it finds the session
/// failed, whatever came in between, and the session cannot succeed any more. Only the report
/// that the transmitter finished starts the interval anew; it comes once in a session
/// ([`super::transparency::transmitters_report_once`]).
pub proof fn shutdown_is_bounded(
    c: CoordinatorView,
    steps: Seq<Step>,
    now: nat,
    cancelled: bool,
    last_rx: nat,
    tx_panicked: bool,
    rx_panicked: bool,
)
    requires
        undrained(steps),
        c.join_deadline matches Some(deadline) && now >= deadline,
    ensures
        ({
            let ticked = coordinator_tick(after_steps(c, steps), now, cancelled, last_rx).0;
            &&& ticked.failure is Some
            &&& !(coordinator_conclusion(coordinator_joined(ticked, tx_panicked, rx_panicked))
                is Succeed)
        }),
{
    lemma_deadline_stays(c, steps);
}

/// A deadline stays, unless the session fails or the transmitter finishes.
proof fn lemma_deadline_stays(c: CoordinatorView, steps: Seq<Step>)
    requires
        undrained(steps),
        c.join_deadline is Some,
    ensures
        after_steps(c, steps).failure is Some || after_steps(c, steps).join_deadline
            == c.join_deadline,
    decreases steps.len(),
{
    if steps.len() > 0 {
        let before = steps.drop_last();
        assert forall|i: int| 0 <= i < before.len() implies ((#[trigger] before[i]) matches Step::Event {
            event,
            ..
        } ==> !(event is TxDrained)) by {
            assert(before[i] == steps[i]);
        }
        lemma_deadline_stays(c, before);
        assert(steps.last() == steps[steps.len() - 1]);
    }
}

/// A stream is not called idle before its transmitter drained, nor before its line has been
/// quiet for the whole idle interval since then.
pub proof fn idle_waits_for_quiet(
    mode: SessionMode,
    rx_idle_timeout: nat,
    drain_timeout: nat,
    steps: Seq<Step>,
    now: nat,
    last_rx: nat,
)
    ensures
        ({
            let c = after_steps(coordinator_start(mode, rx_idle_timeout, drain_timeout), steps);
            is_idle(c, now, last_rx) ==> {
                &&& mode == SessionMode::Stream
                &&& rx_idle_timeout > 0 ==> now >= last_rx + rx_idle_timeout
                &&& exists|i: int|
                    0 <= i < steps.len() && ((#[trigger] steps[i]) matches Step::Event {
                        event,
                        now: drained,
                        ..
                    } && event is TxDrained && (rx_idle_timeout > 0 ==> now >= drained
                        + rx_idle_timeout))
            }
        }),
{
    lemma_drained_at(mode, rx_idle_timeout, drain_timeout, steps);
}

/// A drain moment is the moment of a drain report, and only a stream records one.
proof fn lemma_drained_at(
    mode: SessionMode,
    rx_idle_timeout: nat,
    drain_timeout: nat,
    steps: Seq<Step>,
)
    ensures
        ({
            let c = after_steps(coordinator_start(mode, rx_idle_timeout, drain_timeout), steps);
            &&& c.mode == mode
            &&& c.rx_idle_timeout == rx_idle_timeout
            &&& c.drained_at matches Some(moment) ==> mode == SessionMode::Stream && exists|i: int|
                0 <= i < steps.len() && ((#[trigger] steps[i]) matches Step::Event {
                    event,
                    now: drained,
                    ..
                } && event is TxDrained && drained == moment)
        }),
    decreases steps.len(),
{
    if steps.len() > 0 {
        let before = steps.drop_last();
        let start = coordinator_start(mode, rx_idle_timeout, drain_timeout);
        lemma_drained_at(mode, rx_idle_timeout, drain_timeout, before);
        let earlier = after_steps(start, before);
        let c = after_steps(start, steps);
        if c.drained_at is Some && earlier.drained_at == c.drained_at {
            let i = choose|i: int|
                0 <= i < before.len() && ((#[trigger] before[i]) matches Step::Event {
                    event,
                    now: drained,
                    ..
                } && event is TxDrained && Some(drained) == earlier.drained_at);
            assert(steps[i] == before[i]);
        } else if c.drained_at is Some {
            assert(steps[steps.len() - 1] == steps.last());
        }
    }
}

/// A session succeeds exactly when nothing failed and the observer accepted every event, and
/// its report then carries the final statistics and counters unchanged.
pub proof fn success_is_unblemished(
    c: CoordinatorView,
    refusal: Option<ErrorView>,
    statistics: SessionStatistics,
    hardware: Counters,
)
    ensures
        ({
            let result = session_result(coordinator_conclusion(c), refusal, statistics, hardware);
            &&& result is Ok <==> c.failure is None && !c.observer_failed && refusal is None
            &&& result matches Ok(report) ==> report.statistics == statistics && report.hardware
                == hardware && (c.stop_reason matches Some(reason) ==> report.reason == reason)
            &&& result matches Err(error) ==> {
                ||| refusal == Some(error)
                ||| c.failure == Some(error)
                ||| c.observer_failed && c.failure is None
            }
        }),
{
}

/// A quiet stream ends: once its transmitter drained at the end of input, at `drained`, every tick
/// that comes a whole idle interval or more behind that moment and behind the last reception
/// raises the cancellation flag, cancels the transport and records that the line fell idle,
/// however long the device went on answering and whatever else came in between.
pub proof fn quiet_streams_end(
    c: CoordinatorView,
    drained: nat,
    steps: Seq<Step>,
    now: nat,
    cancelled: bool,
    last_rx: nat,
)
    requires
        c.mode == SessionMode::Stream,
        undrained(steps),
        now >= drained + c.rx_idle_timeout,
        now >= last_rx + c.rx_idle_timeout,
    ensures
        ({
            let heard = coordinator_handle(
                c,
                drained,
                WorkerEventView::TxDrained(StopReason::RxIdle),
                None,
            ).0;
            let (ticked, commands) = coordinator_tick(
                after_steps(heard, steps),
                now,
                cancelled,
                last_rx,
            );
            &&& commands.raise_cancelled
            &&& commands.cancel_transport
            &&& ticked.stop_reason == Some(StopReason::RxIdle)
            &&& ticked.join_deadline is Some
        }),
{
    let heard = coordinator_handle(
        c,
        drained,
        WorkerEventView::TxDrained(StopReason::RxIdle),
        None,
    ).0;
    lemma_drain_is_remembered(heard, steps);
}

/// The moment of the drain stays, unless the transmitter drains again, and so does the idle
/// interval.
proof fn lemma_drain_is_remembered(c: CoordinatorView, steps: Seq<Step>)
    requires
        undrained(steps),
    ensures
        after_steps(c, steps).drained_at == c.drained_at,
        after_steps(c, steps).rx_idle_timeout == c.rx_idle_timeout,
    decreases steps.len(),
{
    if steps.len() > 0 {
        let before = steps.drop_last();
        assert forall|i: int| 0 <= i < before.len() implies ((#[trigger] before[i]) matches Step::Event {
            event,
            ..
        } ==> !(event is TxDrained)) by {
            assert(before[i] == steps[i]);
        }
        lemma_drain_is_remembered(c, before);
        assert(steps.last() == steps[steps.len() - 1]);
    }
}

/// Nothing else ends a stream of its own accord: a tick raises the cancellation flag only where a
/// drained stream has been quiet for its whole idle interval.
pub proof fn busy_streams_go_on(
    mode: SessionMode,
    rx_idle_timeout: nat,
    drain_timeout: nat,
    steps: Seq<Step>,
    now: nat,
    cancelled: bool,
    last_rx: nat,
)
    requires
        rx_idle_timeout > 0,
        coordinator_tick(
            after_steps(coordinator_start(mode, rx_idle_timeout, drain_timeout), steps),
            now,
            cancelled,
            last_rx,
        ).1.raise_cancelled,
    ensures
        mode == SessionMode::Stream,
        now >= last_rx + rx_idle_timeout,
        exists|i: int|
            0 <= i < steps.len() && ((#[trigger] steps[i]) matches Step::Event {
                event,
                now: drained,
                ..
            } && event is TxDrained && now >= drained + rx_idle_timeout),
{
    let c = after_steps(coordinator_start(mode, rx_idle_timeout, drain_timeout), steps);
    let first = if cancellation_is_news(c, cancelled) {
        notice_cancellation(c, now)
    } else {
        c
    };
    assert(is_idle(first, now, last_rx) == is_idle(c, now, last_rx));
    idle_waits_for_quiet(mode, rx_idle_timeout, drain_timeout, steps, now, last_rx);
}

/// A tick does nothing without a cause: without a cancellation to notice, a drained transmitter,
/// or a deadline that has come, it gives no command and changes nothing. It fails a session only
/// for a cancellation or for a deadline that has come.
pub proof fn ticks_have_causes(c: CoordinatorView, now: nat, cancelled: bool, last_rx: nat)
    ensures
        ({
            let (ticked, commands) = coordinator_tick(c, now, cancelled, last_rx);
            let news = cancelled && c.stop_reason is None && c.failure is None;
            let late = c.join_deadline matches Some(deadline) && now >= deadline;
            &&& !news && c.drained_at is None && !(late && c.failure is None) ==> ticked == c
                && !commands.raise_cancelled && !commands.cancel_transport
            &&& news ==> {
                &&& commands.cancel_transport
                &&& ticked.failure is Some
                &&& ticked.failure->0.category == Category::Timeout
                &&& ticked.join_deadline == Some(now + c.drain_timeout)
                &&& c.drained_at is None ==> ticked.stop_reason == Some(StopReason::Cancelled)
            }
            &&& ticked.failure != c.failure ==> c.failure is None && (news || (
            ticked.join_deadline matches Some(deadline) && now >= deadline))
            &&& late && c.failure is None ==> commands.cancel_transport && ticked.failure is Some
            &&& ticked.tx_stopped == c.tx_stopped && ticked.rx_stopped == c.rx_stopped
            &&& ticked.drained_at == c.drained_at && ticked.observer_failed == c.observer_failed
        }),
{
}

/// What a worker says is acted upon. A console that drained, and a transmitter that gave up to a
/// cancellation, end the session for the reason that was given; an error of a worker, and an
/// observer that refuses, end it with that error, unless the session had failed before. Each
/// shuts the workers and the transport down, and gives the workers one drain timeout. A stream that
/// drained is left running. A worker that left is gone, and no other event says so.
pub proof fn reports_are_acted_upon(
    c: CoordinatorView,
    now: nat,
    event: WorkerEventView,
    refusal: Option<ErrorView>,
)
    ensures
        ({
            let (next, commands) = coordinator_handle(c, now, event, refusal);
            let refused = event is TxDrained && refusal is Some && !c.observer_failed;
            let ends = commands.raise_cancelled && commands.cancel_transport && next.join_deadline
                == Some(now + c.drain_timeout);
            let nothing = !commands.raise_cancelled && !commands.cancel_transport
                && next.join_deadline == c.join_deadline;
            &&& refused ==> ends && next.failure == refusal && next.observer_failed
                && next.stop_reason == c.stop_reason
            &&& !refused ==> next.observer_failed == c.observer_failed
            &&& event matches WorkerEventView::TxDrained(reason) ==> (!refused ==> {
                &&& next.failure == c.failure
                &&& c.mode == SessionMode::Console || reason == StopReason::Cancelled ==> ends
                    && next.stop_reason == Some(reason) && next.drained_at == c.drained_at
                &&& c.mode == SessionMode::Stream && reason != StopReason::Cancelled ==> nothing
                    && next.stop_reason == c.stop_reason && next.drained_at == Some(now)
            })
            &&& event matches WorkerEventView::WorkerError(error) ==> {
                &&& ends
                &&& next.failure == (if c.failure is None {
                    Some(error)
                } else {
                    c.failure
                })
                &&& next.stop_reason == c.stop_reason
            }
            &&& event is RxActivity || event is TxStopped || event is RxStopped ==> nothing
                && next.failure == c.failure && next.stop_reason == c.stop_reason
            &&& next.tx_stopped == (c.tx_stopped || event is TxStopped)
            &&& next.rx_stopped == (c.rx_stopped || event is RxStopped)
        }),
{
}

/// A session tells what happened. One that did not fail succeeds, for the reason that was
/// recorded and with the counts that it was given; one that failed ends with that failure, or
/// with the observer's refusal of the final event. An observer that refused before is not asked
/// again.
pub proof fn results_tell_what_happened(
    c: CoordinatorView,
    refusal: Option<ErrorView>,
    statistics: SessionStatistics,
    hardware: Counters,
)
    ensures
        ({
            let conclusion = coordinator_conclusion(c);
            let result = session_result(conclusion, refusal, statistics, hardware);
            &&& conclusion is Abandon <==> c.observer_failed
            &&& conclusion is Succeed <==> !c.observer_failed && c.failure is None
            &&& result is Ok <==> !c.observer_failed && c.failure is None && refusal is None
            &&& result matches Ok(report) ==> {
                &&& report.statistics == statistics
                &&& report.hardware == hardware
                &&& c.stop_reason is Some ==> Some(report.reason) == c.stop_reason
                &&& c.stop_reason is None ==> report.reason == StopReason::RxIdle
            }
            &&& result matches Err(error) ==> {
                &&& c.observer_failed && c.failure is Some ==> Some(error) == c.failure
                &&& !c.observer_failed && refusal is Some ==> Some(error) == refusal
                &&& !c.observer_failed && refusal is None ==> Some(error) == c.failure
            }
            &&& conclusion matches ConclusionView::Fail { stop_reason, error } ==> stop_reason
                == c.stop_reason && Some(error) == c.failure
        }),
{
}

/// A worker that panicked fails the session, unless something failed it before, and nothing else
/// of the session changes.
pub proof fn panics_fail_the_session(c: CoordinatorView, tx_panicked: bool, rx_panicked: bool)
    ensures
        ({
            let joined = coordinator_joined(c, tx_panicked, rx_panicked);
            &&& c.failure is Some ==> joined.failure == c.failure
            &&& c.failure is None && (tx_panicked || rx_panicked) ==> (joined.failure matches Some(
                error,
            ) && error.category == Category::Protocol)
            &&& c.failure is None && !tx_panicked && !rx_panicked ==> joined.failure is None
            &&& joined == (CoordinatorView { failure: joined.failure, ..c })
        }),
{
}

}
