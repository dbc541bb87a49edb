//! What a worker does next, answer by answer.

use vstd::prelude::*;

use crate::error::{Category, ErrorView};

use super::session::{SessionMode, StopReason};
use super::transport::{FailureView, OutcomeView, TransferFailureKind};
use super::worker::{
    lemma_escape_position, rx_action, rx_next, tx_action, tx_next, RxAction, RxEventView,
    RxReportView, RxWorkerView, TxAction, TxEventView, TxState, TxWorker, WorkerEventView,
};

verus! {

/// Whether a transfer that failed so may be tried again.
pub open spec fn passing(failure: FailureView) -> bool {
    failure.kind is Interrupted || failure.kind is WouldBlock || failure.kind is TimedOut
}

/// Whether the transfer failed for good.
pub open spec fn failed_for_good(outcome: OutcomeView) -> bool {
    outcome.failure matches Some(failure) && !passing(failure)
}

/// Whether `error` is what such a failure is reported as: its own message, and a protocol error
/// where the transport broke the protocol or an access error where the device is out of reach.
pub open spec fn reports_failure(error: ErrorView, outcome: OutcomeView) -> bool {
    &&& outcome.failure is Some
    &&& error.message == outcome.failure->0.message
    &&& outcome.failure->0.kind is Protocol ==> error.category == Category::Protocol
    &&& !(outcome.failure->0.kind is Protocol) ==> error.category == Category::Access
}

/// Whether the event is the answer that the action waits for.
pub open spec fn tx_answers(action: TxAction, event: TxEventView) -> bool {
    match action {
        TxAction::CheckCancelled => event is CancelFlag,
        TxAction::ReadInput => event is Input || event is InputInterrupted || event is InputFailed,
        TxAction::Echo { .. } => event is Echoed || event is EchoFailed,
        TxAction::Write { .. } => event is Written,
        TxAction::Pause => event is Paused,
        TxAction::Submit => event is Submitted,
        TxAction::Drain { .. } => event is Drained || event is DrainFailed,
        TxAction::Stop => false,
    }
}

/// A transmit worker takes the answer to what it asked for and nothing else, and what was agreed
/// for the session stays.
pub proof fn transmitters_take_answers(worker: TxWorker, event: TxEventView)
    ensures
        ({
            let (next, report) = tx_next(worker, event);
            &&& !tx_answers(tx_action(worker), event) ==> next == worker && report is None
            &&& next.mode == worker.mode
            &&& next.submit == worker.submit
            &&& next.drain_timeout == worker.drain_timeout
        }),
{
}

/// Input is followed up: its end leads to the drain; a stream writes the whole chunk; a console
/// echoes and then writes what comes before the first escape byte, and submits and drains at
/// once where the escape comes first. An interrupted read is tried again, and one that failed
/// ends the worker with an access error.
pub proof fn input_is_followed_up(worker: TxWorker, bytes: Seq<u8>, message: Seq<char>)
    requires
        tx_action(worker) == TxAction::ReadInput,
        bytes.len() <= usize::MAX,
    ensures
        ({
            let (read, report) = tx_next(worker, TxEventView::Input(bytes));
            let (interrupted, nothing) = tx_next(worker, TxEventView::InputInterrupted);
            let (failed, told) = tx_next(worker, TxEventView::InputFailed(message));
            &&& report is None
            &&& read.accepted == worker.accepted && read.completed == worker.completed
            &&& bytes.len() == 0 ==> {
                &&& tx_action(read) == (TxAction::Drain { timeout: worker.drain_timeout })
                &&& tx_next(read, TxEventView::Drained).1 == Some(
                    WorkerEventView::TxDrained(StopReason::RxIdle),
                )
            }
            &&& bytes.len() > 0 && worker.mode == SessionMode::Stream ==> offers(
                read,
                0,
                bytes.len() as int,
            )
            &&& bytes.len() > 0 && worker.mode == SessionMode::Console && bytes[0] != 0x1d ==> (
            tx_action(read) matches TxAction::Echo { length } && {
                &&& 0 < length <= bytes.len()
                &&& forall|i: int| 0 <= i < length ==> bytes[i] != 0x1d
                &&& length < bytes.len() ==> bytes[length as int] == 0x1d
                &&& offers(tx_next(read, TxEventView::Echoed).0, 0, length as int)
                &&& tx_next(read, TxEventView::Echoed).1 is None
            })
            &&& bytes.len() > 0 && worker.mode == SessionMode::Console && bytes[0] == 0x1d ==> {
                let left = tx_next(read, TxEventView::Submitted).0;
                &&& tx_action(read) == TxAction::Submit
                &&& tx_action(left) == (TxAction::Drain { timeout: worker.drain_timeout })
                &&& tx_next(left, TxEventView::Drained).1 == Some(
                    WorkerEventView::TxDrained(StopReason::ConsoleEscape),
                )
            }
            &&& nothing is None && tx_action(interrupted) == TxAction::CheckCancelled
            &&& tx_action(tx_next(interrupted, TxEventView::CancelFlag(false)).0)
                == TxAction::ReadInput
            &&& tx_action(failed) == TxAction::Stop && (told matches Some(
                WorkerEventView::WorkerError(error),
            ) && error.category == Category::Access)
        }),
{
    lemma_escape_position(bytes);
}

/// Whether the worker looks at the cancellation flag and, where it is not raised, offers the
/// bytes of the chunk from `start` up to `end`.
pub open spec fn offers(worker: TxWorker, start: int, end: int) -> bool {
    let (going, report) = tx_next(worker, TxEventView::CancelFlag(false));
    &&& tx_action(worker) == TxAction::CheckCancelled
    &&& report is None
    &&& going.accepted == worker.accepted
    &&& tx_action(going) matches TxAction::Write { start: from, end: to } && from == start && to
        == end
}

/// Whether the worker is done with a chunk: it submits it, drains the transport, or looks at the
/// cancellation flag and reads on.
pub open spec fn turns(worker: TxWorker) -> bool {
    ||| tx_action(worker) == TxAction::Submit
    ||| tx_action(worker) is Drain
    ||| tx_action(worker) == TxAction::CheckCancelled && tx_action(
        tx_next(worker, TxEventView::CancelFlag(false)).0,
    ) == TxAction::ReadInput
}

/// A submission is followed up: the worker drains or reads on, and nothing is counted or
/// reported.
pub proof fn submissions_are_followed_up(worker: TxWorker)
    requires
        tx_action(worker) == TxAction::Submit,
    ensures
        ({
            let (next, report) = tx_next(worker, TxEventView::Submitted);
            &&& turns(next) && tx_action(next) != TxAction::Submit
            &&& report is None
            &&& next.accepted == worker.accepted && next.completed == worker.completed
        }),
{
}

/// A write is followed up. The completed bytes count, whatever else went wrong. A failure that
/// may pass is tried again, after a pause where nothing moved; any other ends the worker with
/// that failure. What is left is offered from where the transport stopped. A transport that
/// claims more than it was offered, or that moves nothing and gives no reason, broke the protocol.
pub proof fn writes_are_followed_up(
    worker: TxWorker,
    start: usize,
    end: usize,
    outcome: OutcomeView,
)
    requires
        tx_action(worker) == (TxAction::Write { start, end }),
        start < end,
    ensures
        ({
            let (next, report) = tx_next(worker, TxEventView::Written(outcome));
            let wrong = outcome.completed > end - start;
            let silent = outcome.completed == 0 && outcome.failure is None;
            &&& next.completed == worker.completed
            &&& !wrong ==> next.accepted == (worker.accepted + outcome.completed)
                % 0x1_0000_0000_0000_0000
            &&& wrong ==> next.accepted == worker.accepted
            &&& wrong || silent ==> tx_action(next) == TxAction::Stop && (report matches Some(
                WorkerEventView::WorkerError(error),
            ) && error.category == Category::Protocol)
            &&& !wrong && failed_for_good(outcome) ==> tx_action(next) == TxAction::Stop && (
            report matches Some(WorkerEventView::WorkerError(error)) && reports_failure(
                error,
                outcome,
            ))
            &&& !wrong && !silent && !failed_for_good(outcome) ==> {
                &&& report is None
                &&& outcome.completed == 0 ==> tx_action(next) == TxAction::Pause && offers(
                    tx_next(next, TxEventView::Paused).0,
                    start as int,
                    end as int,
                )
                &&& 0 < outcome.completed < end - start ==> offers(
                    next,
                    start + outcome.completed,
                    end as int,
                )
                &&& outcome.completed == end - start ==> turns(next)
            }
        }),
{
}

/// A failed echo ends the worker with an access error, before anything is written.
pub proof fn failed_echoes_end_the_session(worker: TxWorker, message: Seq<char>)
    requires
        tx_action(worker) is Echo,
    ensures
        ({
            let (next, report) = tx_next(worker, TxEventView::EchoFailed(message));
            &&& tx_action(next) == TxAction::Stop
            &&& next.accepted == worker.accepted
            &&& report matches Some(WorkerEventView::WorkerError(error)) && error.category
                == Category::Access
        }),
{
}

/// A drain that succeeded confirms every accepted byte and is reported as such; one that failed
/// confirms nothing and is reported with its own error.
pub proof fn drains_are_reported(worker: TxWorker, error: ErrorView)
    requires
        tx_action(worker) is Drain,
    ensures
        ({
            let (done, told) = tx_next(worker, TxEventView::Drained);
            let (failed, report) = tx_next(worker, TxEventView::DrainFailed(error));
            &&& tx_action(done) == TxAction::Stop && done.completed == worker.accepted
                && done.accepted == worker.accepted
            &&& told matches Some(event) && event is TxDrained
            &&& tx_action(failed) == TxAction::Stop && failed.completed == worker.completed
                && failed.accepted == worker.accepted
            &&& report == Some(WorkerEventView::WorkerError(error))
        }),
{
}

/// The worker after a series of events.
pub open spec fn tx_after(worker: TxWorker, events: Seq<TxEventView>) -> TxWorker
    decreases events.len(),
{
    if events.len() == 0 {
        worker
    } else {
        tx_next(tx_after(worker, events.drop_last()), events.last()).0
    }
}

/// A cancelled transmitter stops sending: once it has seen the flag raised, and as long as the
/// flag stays so, it reads nothing, echoes nothing and offers nothing more, and its next look at
/// the flag is its last. Between two chunks it reports that it was cancelled at once.
pub proof fn cancelled_transmitters_send_nothing(worker: TxWorker, events: Seq<TxEventView>)
    requires
        tx_action(worker) == TxAction::CheckCancelled,
        forall|i: int|
            0 <= i < events.len() ==> #[trigger] events[i] != TxEventView::CancelFlag(false),
    ensures
        ({
            let seen = tx_next(worker, TxEventView::CancelFlag(true)).0;
            let later = tx_after(seen, events);
            let action = tx_action(later);
            &&& action != TxAction::ReadInput && !(action is Echo) && !(action is Write) && action
                != TxAction::Pause
            &&& later.accepted == worker.accepted
            &&& action == TxAction::CheckCancelled ==> tx_next(
                later,
                TxEventView::CancelFlag(true),
            ).1 == Some(WorkerEventView::TxDrained(StopReason::Cancelled))
            &&& worker.state == TxState::Ready ==> tx_action(seen) == TxAction::Stop && tx_next(
                worker,
                TxEventView::CancelFlag(true),
            ).1 == Some(WorkerEventView::TxDrained(StopReason::Cancelled))
        }),
{
    let seen = tx_next(worker, TxEventView::CancelFlag(true)).0;
    lemma_sends_nothing(seen, events);
}

proof fn lemma_sends_nothing(worker: TxWorker, events: Seq<TxEventView>)
    requires
        worker.state is Ready || worker.state is Submitting || worker.state is Draining
            || worker.state is Stopped,
        forall|i: int|
            0 <= i < events.len() ==> #[trigger] events[i] != TxEventView::CancelFlag(false),
    ensures
        ({
            let later = tx_after(worker, events);
            &&& later.state is Ready || later.state is Submitting || later.state is Draining
                || later.state is Stopped
            &&& later.accepted == worker.accepted
        }),
    decreases events.len(),
{
    if events.len() > 0 {
        let before = events.drop_last();
        assert forall|i: int| 0 <= i < before.len() implies #[trigger] before[i]
            != TxEventView::CancelFlag(false) by {
            assert(before[i] == events[i]);
        }
        lemma_sends_nothing(worker, before);
        assert(events.last() == events[events.len() - 1]);
    }
}

/// Whether the event is the answer that the action waits for.
pub open spec fn rx_answers(action: RxAction, event: RxEventView) -> bool {
    match action {
        RxAction::CheckCancelled => event is CancelFlag,
        RxAction::Read => event is Received,
        RxAction::Deliver { .. } => event is Delivered || event is DeliveryFailed,
        RxAction::Pause => event is Paused,
        RxAction::Stop => false,
    }
}

/// Whether the worker has nothing to tell.
pub open spec fn quiet(report: RxReportView) -> bool {
    !report.activity && report.failure is None
}

/// Whether the worker looks at the cancellation flag, reads where it is not raised, and leaves
/// without an error where it is.
pub open spec fn goes_on(worker: RxWorkerView) -> bool {
    let (going, report) = rx_next(worker, RxEventView::CancelFlag(false));
    let (left, nothing) = rx_next(worker, RxEventView::CancelFlag(true));
    &&& rx_action(worker.state) == RxAction::CheckCancelled
    &&& rx_action(going.state) == RxAction::Read
    &&& going.received == worker.received
    &&& quiet(report)
    &&& rx_action(left.state) == RxAction::Stop
    &&& quiet(nothing)
}

/// A receive worker takes the answer to what it asked for and nothing else, its buffer keeps its
/// size, and it reports activity for delivered bytes and for nothing else.
pub proof fn receivers_take_answers(worker: RxWorkerView, event: RxEventView)
    ensures
        ({
            let (next, report) = rx_next(worker, event);
            &&& !rx_answers(rx_action(worker.state), event) ==> next == worker && quiet(report)
            &&& next.capacity == worker.capacity
            &&& report.activity == (rx_action(worker.state) is Deliver && event is Delivered)
            &&& rx_action(worker.state) == RxAction::CheckCancelled ==> goes_on(worker)
            &&& rx_action(worker.state) == RxAction::Pause ==> goes_on(
                rx_next(worker, RxEventView::Paused).0,
            ) && quiet(rx_next(worker, RxEventView::Paused).1)
        }),
{
}

/// A read is followed up. Bytes that arrived are delivered, all of them, and counted once they
/// are, before a failure that came with them is handled: one that may pass is passed over, and
/// any other ends the worker. A read that moved nothing is tried again after a pause where the
/// failure may pass. A transport that claims more than the buffer holds, or that moves nothing and
/// gives no reason, broke the protocol.
pub proof fn reads_are_followed_up(
    worker: RxWorkerView,
    outcome: OutcomeView,
    message: Seq<char>,
)
    requires
        rx_action(worker.state) == RxAction::Read,
    ensures
        ({
            let (next, report) = rx_next(worker, RxEventView::Received(outcome));
            let (done, told) = rx_next(next, RxEventView::Delivered);
            let (lost, reason) = rx_next(next, RxEventView::DeliveryFailed(message));
            let wrong = outcome.completed > worker.capacity;
            let silent = outcome.completed == 0 && outcome.failure is None;
            &&& next.received == worker.received
            &&& !report.activity
            &&& wrong || silent ==> rx_action(next.state) == RxAction::Stop && (
            report.failure matches Some(error) && error.category == Category::Protocol)
            &&& !wrong && outcome.completed > 0 ==> {
                &&& rx_action(next.state) == (RxAction::Deliver { length: outcome.completed })
                &&& report.failure is None
                &&& done.received == (worker.received + outcome.completed)
                    % 0x1_0000_0000_0000_0000
                &&& told.activity
                &&& failed_for_good(outcome) ==> rx_action(done.state) == RxAction::Stop && (
                told.failure matches Some(error) && reports_failure(error, outcome))
                &&& !failed_for_good(outcome) ==> goes_on(done) && told.failure is None
                &&& rx_action(lost.state) == RxAction::Stop && lost.received == worker.received
                &&& reason.failure matches Some(error) && error.category == Category::Access
            }
            &&& outcome.completed == 0 && failed_for_good(outcome) ==> rx_action(next.state)
                == RxAction::Stop && (report.failure matches Some(error) && reports_failure(
                error,
                outcome,
            ))
            &&& outcome.completed == 0 && outcome.failure is Some && !failed_for_good(outcome)
                ==> rx_action(next.state) == RxAction::Pause && report.failure is None
        }),
{
}

}
