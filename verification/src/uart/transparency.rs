//! What the workers do to the bytes of a session, over whole runs.

use vstd::prelude::*;

use crate::error::ErrorView;
use crate::span::Span;

use super::session::{SessionMode, StopReason};
use super::worker::{
    counted, escape_position, escapes, lemma_escape_position, payload, rx_next, tx_action,
    tx_next, tx_state_ok, RxEventView, RxState, RxWorkerView, SubmitPolicy, TxAction, TxEventView,
    TxState, TxWorker, WorkerEventView,
};

verus! {

/// A transmit worker together with every byte that went through it.
#[verifier::ext_equal]
pub struct TxHistory {
    pub worker: TxWorker,
    /// All input read so far.
    pub input: Seq<u8>,
    /// The chunk of input in progress.
    pub chunk: Seq<u8>,
    /// The bytes echoed to the local output.
    pub echoed: Seq<u8>,
    /// The bytes that the transport accepted.
    pub accepted: Seq<u8>,
    /// What the coordinator was last told.
    pub report: Option<WorkerEventView>,
    /// How often the coordinator was told something.
    pub reports: nat,
}

/// The history before the first event.
pub open spec fn tx_start(
    mode: SessionMode,
    submit: SubmitPolicy,
    drain_timeout: Span,
) -> TxHistory {
    TxHistory {
        worker: TxWorker {
            mode,
            submit,
            drain_timeout,
            state: TxState::Ready,
            accepted: 0,
            completed: 0,
        },
        input: Seq::empty(),
        chunk: Seq::empty(),
        echoed: Seq::empty(),
        accepted: Seq::empty(),
        report: None,
        reports: 0,
    }
}

/// The history after one more event.
pub open spec fn tx_record(history: TxHistory, event: TxEventView) -> TxHistory {
    let (worker, told) = tx_next(history.worker, event);
    let report = if told is Some {
        told
    } else {
        history.report
    };
    let reports = history.reports + (if told is Some {
        1nat
    } else {
        0
    });
    let next = TxHistory { worker, report, reports, ..history };
    match (history.worker.state, event) {
        (TxState::Reading, TxEventView::Input(bytes)) => TxHistory {
            input: history.input + bytes,
            chunk: bytes,
            ..next
        },
        (TxState::Echoing { length, .. }, TxEventView::Echoed) => TxHistory {
            echoed: history.echoed + history.chunk.take(length as int),
            ..next
        },
        (TxState::Writing { sent, length, .. }, TxEventView::Written(outcome)) =>
            if outcome.completed <= length - sent {
                TxHistory {
                    accepted: history.accepted + history.chunk.subrange(
                        sent as int,
                        sent + outcome.completed,
                    ),
                    ..next
                }
            } else {
                next
            },
        _ => next,
    }
}

/// The history of a run.
pub open spec fn tx_run(
    mode: SessionMode,
    submit: SubmitPolicy,
    drain_timeout: Span,
    events: Seq<TxEventView>,
) -> TxHistory
    decreases events.len(),
{
    if events.len() == 0 {
        tx_start(mode, submit, drain_timeout)
    } else {
        tx_record(tx_run(mode, submit, drain_timeout, events.drop_last()), events.last())
    }
}

/// Whether a chunk of input fits in memory.
pub open spec fn addressable(event: TxEventView) -> bool {
    event matches TxEventView::Input(bytes) ==> bytes.len() <= usize::MAX
}

/// Whether every chunk of input fits in memory.
pub open spec fn all_addressable(events: Seq<TxEventView>) -> bool {
    forall|i: int| 0 <= i < events.len() ==> addressable(#[trigger] events[i])
}

/// Whether cancellation was never seen.
pub open spec fn uncancelled(events: Seq<TxEventView>) -> bool {
    forall|i: int| 0 <= i < events.len() ==> #[trigger] events[i] != TxEventView::CancelFlag(true)
}

/// Whether a cancellation that was seen once is seen at every later look.
pub open spec fn stays_cancelled(events: Seq<TxEventView>) -> bool {
    forall|i: int, j: int|
        0 <= i < j < events.len() && #[trigger] events[i] == TxEventView::CancelFlag(true)
            ==> #[trigger] events[j] != TxEventView::CancelFlag(false)
}

/// The input before the chunk in progress.
spec fn earlier(h: TxHistory) -> Seq<u8> {
    h.input.take(h.input.len() - h.chunk.len())
}

/// What the local output shows once the bytes are echoed.
spec fn echo_of(mode: SessionMode, bytes: Seq<u8>) -> Seq<u8> {
    match mode {
        SessionMode::Console => bytes,
        SessionMode::Stream => Seq::empty(),
    }
}

/// The chunk in progress ends the input, nothing before it was an escape, and its
/// transmitted length and escape mark are those of its bytes.
spec fn chunk_ok(h: TxHistory, length: usize, escape: bool) -> bool {
    let mode = h.worker.mode;
    &&& h.chunk.len() <= h.input.len()
    &&& h.input == earlier(h) + h.chunk
    &&& !escapes(mode, earlier(h))
    &&& length == payload(mode, h.chunk).len()
    &&& length <= h.chunk.len()
    &&& escape == escapes(mode, h.chunk)
}

/// What holds of every history in which cancellation was never seen.
spec fn tx_inv(h: TxHistory) -> bool {
    let mode = h.worker.mode;
    &&& tx_state_ok(h.worker.state)
    &&& match h.worker.state {
        TxState::Ready => {
            &&& !escapes(mode, h.input)
            &&& h.accepted == h.input
            &&& h.echoed == echo_of(mode, h.input)
        },
        TxState::Reading => {
            &&& !escapes(mode, h.input)
            &&& h.accepted == h.input
            &&& h.echoed == echo_of(mode, h.input)
        },
        TxState::Echoing { length, escape } => {
            &&& mode == SessionMode::Console
            &&& chunk_ok(h, length, escape)
            &&& h.accepted == earlier(h)
            &&& h.echoed == earlier(h)
        },
        TxState::Checking { sent, length, escape } => sending_ok(h, sent, length, escape),
        TxState::Writing { sent, length, escape } => sending_ok(h, sent, length, escape),
        TxState::Pausing { sent, length, escape } => sending_ok(h, sent, length, escape),
        TxState::Submitting { escape } => {
            &&& escape == escapes(mode, h.input)
            &&& h.accepted == payload(mode, h.input)
            &&& h.echoed == echo_of(mode, h.accepted)
        },
        TxState::Draining { reason } => {
            &&& h.accepted == payload(mode, h.input)
            &&& h.echoed == echo_of(mode, h.accepted)
            &&& reason == (if escapes(mode, h.input) {
                StopReason::ConsoleEscape
            } else {
                StopReason::RxIdle
            })
        },
        TxState::Stopped => {
            &&& h.report is Some
            &&& h.accepted.is_prefix_of(payload(mode, h.input))
            &&& mode == SessionMode::Stream ==> h.echoed.len() == 0
            &&& mode == SessionMode::Console ==> h.accepted.is_prefix_of(h.echoed)
            &&& h.report matches Some(WorkerEventView::TxDrained(reason)) ==> {
                &&& h.accepted == payload(mode, h.input)
                &&& h.echoed == echo_of(mode, h.accepted)
                &&& reason == (if escapes(mode, h.input) {
                    StopReason::ConsoleEscape
                } else {
                    StopReason::RxIdle
                })
            }
        },
    }
    &&& h.worker.state != TxState::Stopped ==> h.report is None
}

/// What holds while the chunk is being written.
spec fn sending_ok(h: TxHistory, sent: usize, length: usize, escape: bool) -> bool {
    let mode = h.worker.mode;
    &&& chunk_ok(h, length, escape)
    &&& h.accepted == earlier(h) + h.chunk.take(sent as int)
    &&& h.echoed == echo_of(mode, earlier(h) + h.chunk.take(length as int))
}

/// Input without an escape before it splits at the chunk.
proof fn lemma_payload_split(mode: SessionMode, before: Seq<u8>, chunk: Seq<u8>)
    requires
        !escapes(mode, before),
    ensures
        payload(mode, before + chunk) == before + payload(mode, chunk),
        escapes(mode, before + chunk) == escapes(mode, chunk),
        payload(mode, chunk) == chunk.take(payload(mode, chunk).len() as int),
        payload(mode, chunk).len() <= chunk.len(),
{
    let whole = before + chunk;
    lemma_escape_position(before);
    lemma_escape_position(chunk);
    lemma_escape_position(whole);
    if mode == SessionMode::Console {
        let at = escape_position(chunk) as int;
        assert(escape_position(before) == before.len());
        assert(escape_position(whole) == before.len() + at) by {
            if escape_position(whole) < before.len() {
                assert(whole[escape_position(whole) as int] == before[escape_position(
                    whole,
                ) as int]);
            }
            if escape_position(whole) < before.len() + at {
                assert(whole[escape_position(whole) as int] == chunk[escape_position(whole)
                    - before.len()]);
            }
            if before.len() + at < escape_position(whole) {
                assert(whole[before.len() + at] == chunk[at]);
            }
        }
        assert(whole.take(before.len() + at) =~= before + chunk.take(at));
        assert(chunk.take(at) =~= chunk.take(chunk.take(at).len() as int));
    } else {
        assert(chunk.take(chunk.len() as int) =~= chunk);
    }
}

/// Input without an escape is transmitted whole.
proof fn lemma_payload_whole(mode: SessionMode, input: Seq<u8>)
    requires
        !escapes(mode, input),
    ensures
        payload(mode, input) == input,
{
    lemma_escape_position(input);
    if mode == SessionMode::Console {
        assert(input.take(input.len() as int) =~= input);
    }
}

/// Once the last byte of the chunk is accepted, the whole payload is.
proof fn lemma_chunk_done(h: TxHistory, length: usize, escape: bool)
    requires
        chunk_ok(h, length, escape),
        h.accepted == earlier(h) + h.chunk.take(length as int),
        h.echoed == echo_of(h.worker.mode, earlier(h) + h.chunk.take(length as int)),
    ensures
        h.accepted == payload(h.worker.mode, h.input),
        h.echoed == echo_of(h.worker.mode, h.accepted),
        escape == escapes(h.worker.mode, h.input),
        !escape ==> h.accepted == h.input,
{
    let mode = h.worker.mode;
    lemma_payload_split(mode, earlier(h), h.chunk);
    if !escape {
        lemma_payload_whole(mode, h.input);
    }
}

/// The accepted bytes of a chunk in progress begin the payload.
proof fn lemma_sending_prefix(h: TxHistory, sent: usize, length: usize, escape: bool)
    requires
        sending_ok(h, sent, length, escape),
        sent <= length,
    ensures
        h.accepted.is_prefix_of(payload(h.worker.mode, h.input)),
        h.worker.mode == SessionMode::Console ==> h.accepted.is_prefix_of(h.echoed),
        h.worker.mode == SessionMode::Stream ==> h.echoed.len() == 0,
{
    let mode = h.worker.mode;
    lemma_payload_split(mode, earlier(h), h.chunk);
    let whole = earlier(h) + h.chunk.take(length as int);
    assert(whole == payload(mode, h.input));
    assert(whole.take(h.accepted.len() as int) =~= h.accepted);
}

/// One step keeps the invariant, as long as the step does not show a cancellation.
#[verifier::rlimit(40)]
proof fn lemma_tx_step(h: TxHistory, event: TxEventView)
    requires
        tx_inv(h),
        event != TxEventView::CancelFlag(true),
        addressable(event),
    ensures
        tx_inv(tx_record(h, event)),
        tx_record(h, event).worker.mode == h.worker.mode,
{
    let next = tx_record(h, event);
    let mode = h.worker.mode;
    match (h.worker.state, event) {
        (TxState::Reading, TxEventView::Input(bytes)) => {
            lemma_payload_whole(mode, h.input);
            lemma_payload_split(mode, h.input, bytes);
            assert(earlier(next) =~= h.input);
            assert(next.input =~= earlier(next) + next.chunk);
            if bytes.len() == 0 {
                assert(next.input =~= h.input);
            } else {
                let length = payload(mode, bytes).len() as usize;
                assert(payload(mode, bytes).len() <= bytes.len());
                assert(chunk_ok(next, length, escapes(mode, bytes)));
                assert(next.chunk.take(0) =~= Seq::empty());
                assert(earlier(next) + next.chunk.take(0) =~= h.input);
                if length == 0 {
                    lemma_chunk_done(next, length, escapes(mode, bytes));
                }
            }
        },
        (TxState::Echoing { length, escape }, TxEventView::Echoed) => {
            assert(next.chunk.take(0) =~= Seq::empty());
            assert(earlier(next) == earlier(h));
            assert(earlier(next) + next.chunk.take(0) =~= earlier(next));
        },
        (TxState::Echoing { length, escape }, TxEventView::EchoFailed(_)) => {
            lemma_payload_split(mode, earlier(h), h.chunk);
            assert(payload(mode, h.input).take(h.accepted.len() as int) =~= h.accepted);
        },
        (TxState::Writing { sent, length, escape }, TxEventView::Written(outcome)) => {
            if outcome.completed <= length - sent {
                let upto = (sent + outcome.completed) as usize;
                assert(h.chunk.take(sent as int) + h.chunk.subrange(sent as int, upto as int)
                    =~= h.chunk.take(upto as int));
                assert(next.accepted =~= earlier(h) + h.chunk.take(upto as int));
                assert(earlier(next) == earlier(h));
                assert(sending_ok(next, upto, length, escape));
                lemma_sending_prefix(next, upto, length, escape);
                if upto == length {
                    lemma_chunk_done(next, length, escape);
                }
                if outcome.completed == 0 {
                    assert(upto == sent);
                }
            } else {
                lemma_sending_prefix(h, sent, length, escape);
            }
        },
        (TxState::Checking { sent, length, escape }, TxEventView::CancelFlag(_)) => {
            assert(earlier(next) == earlier(h));
        },
        (TxState::Pausing { sent, length, escape }, TxEventView::Paused) => {
            assert(earlier(next) == earlier(h));
        },
        (TxState::Submitting { escape }, TxEventView::Submitted) => {
            if !escape {
                lemma_payload_whole(mode, h.input);
            }
        },
        (TxState::Ready, TxEventView::CancelFlag(_)) => {},
        (TxState::Reading, TxEventView::InputInterrupted) => {},
        (TxState::Reading, TxEventView::InputFailed(_)) => {
            lemma_payload_whole(mode, h.input);
        },
        (TxState::Draining { .. }, _) => {},
        _ => {
            assert(next =~= h);
        },
    }
}

/// What holds of the bytes of every history.
spec fn in_sequence(h: TxHistory) -> bool {
    let mode = h.worker.mode;
    &&& h.accepted.is_prefix_of(payload(mode, h.input))
    &&& mode == SessionMode::Stream ==> h.echoed.len() == 0
    &&& mode == SessionMode::Console ==> h.accepted.is_prefix_of(h.echoed)
}

/// The invariant of an uncancelled history puts its bytes in sequence.
proof fn lemma_in_sequence(h: TxHistory)
    requires
        tx_inv(h),
    ensures
        in_sequence(h),
{
    let mode = h.worker.mode;
    match h.worker.state {
        TxState::Ready => {
            lemma_payload_whole(mode, h.input);
        },
        TxState::Reading => {
            lemma_payload_whole(mode, h.input);
        },
        TxState::Echoing { length, escape } => {
            lemma_payload_split(mode, earlier(h), h.chunk);
            assert(payload(mode, h.input).take(h.accepted.len() as int) =~= h.accepted);
        },
        TxState::Checking { sent, length, escape } => {
            lemma_sending_prefix(h, sent, length, escape);
        },
        TxState::Writing { sent, length, escape } => {
            lemma_sending_prefix(h, sent, length, escape);
        },
        TxState::Pausing { sent, length, escape } => {
            lemma_sending_prefix(h, sent, length, escape);
        },
        _ => {},
    }
}

/// What holds once a chunk was given up to a cancellation: nothing more is read or written, and
/// the end of input is not reported.
spec fn given_up(h: TxHistory) -> bool {
    &&& in_sequence(h)
    &&& match h.worker.state {
        TxState::Ready => h.report is None,
        TxState::Submitting { escape } => h.report is None && (escape ==> h.worker.mode
            == SessionMode::Console),
        TxState::Draining { reason } => h.report is None && reason == StopReason::ConsoleEscape
            && h.worker.mode == SessionMode::Console,
        TxState::Stopped => {
            &&& h.report != Some(WorkerEventView::TxDrained(StopReason::RxIdle))
            &&& h.report == Some(WorkerEventView::TxDrained(StopReason::ConsoleEscape))
                ==> h.worker.mode == SessionMode::Console
        },
        _ => false,
    }
}

/// Whether cancellation was seen.
spec fn cancelled(events: Seq<TxEventView>) -> bool {
    exists|i: int| 0 <= i < events.len() && #[trigger] events[i] == TxEventView::CancelFlag(true)
}

/// Every run whose cancellation stays keeps the invariant, or has given its chunk up.
proof fn lemma_tx_cancellable_run(
    mode: SessionMode,
    submit: SubmitPolicy,
    drain_timeout: Span,
    events: Seq<TxEventView>,
)
    requires
        stays_cancelled(events),
        all_addressable(events),
    ensures
        ({
            let run = tx_run(mode, submit, drain_timeout, events);
            &&& run.worker.mode == mode
            &&& tx_inv(run) || (cancelled(events) && given_up(run))
        }),
    decreases events.len(),
{
    if events.len() == 0 {
        let start = tx_start(mode, submit, drain_timeout);
        assert(start.echoed =~= echo_of(mode, start.input));
    } else {
        let before = events.drop_last();
        assert forall|i: int, j: int|
            0 <= i < j < before.len() && #[trigger] before[i] == TxEventView::CancelFlag(
                true,
            ) implies #[trigger] before[j] != TxEventView::CancelFlag(false) by {
            assert(before[i] == events[i] && before[j] == events[j]);
        }
        assert forall|i: int| 0 <= i < before.len() implies addressable(#[trigger] before[i]) by {
            assert(before[i] == events[i]);
        }
        lemma_tx_cancellable_run(mode, submit, drain_timeout, before);
        let h = tx_run(mode, submit, drain_timeout, before);
        let event = events.last();
        assert(event == events[events.len() - 1]);
        if cancelled(before) {
            let i = choose|i: int|
                0 <= i < before.len() && #[trigger] before[i] == TxEventView::CancelFlag(true);
            assert(events[i] == TxEventView::CancelFlag(true));
            assert(event != TxEventView::CancelFlag(false));
        }
        if event == TxEventView::CancelFlag(true) {
            assert(cancelled(events));
        }
        let next = tx_record(h, event);
        if !tx_inv(h) {
            assert(given_up(next));
        } else if event != TxEventView::CancelFlag(true) {
            lemma_tx_step(h, event);
        } else {
            lemma_in_sequence(h);
            match h.worker.state {
                TxState::Ready => {
                    assert(given_up(next));
                },
                TxState::Checking { .. } => {
                    assert(given_up(next));
                },
                _ => {
                    assert(next =~= h);
                },
            }
        }
    }
}

/// Transparency: the bytes that the transport accepts are, in order and without gaps, the
/// beginning of the payload (the input of a stream, or what comes before the escape in a
/// console), cancelled or not, given that a cancellation stays. A stream echoes nothing, and a
/// console echoes what it transmits before it transmits it. Once the worker reports that it
/// drained at the end of input, the accepted bytes are all of the payload. Only a console drains
/// for an escape. Without a
/// cancellation they are so at every drain, a console has echoed exactly those bytes, and the
/// reason is the escape if there was one and the end of input otherwise.
pub proof fn transmission_is_transparent(
    mode: SessionMode,
    submit: SubmitPolicy,
    drain_timeout: Span,
    events: Seq<TxEventView>,
)
    requires
        stays_cancelled(events),
        all_addressable(events),
    ensures
        ({
            let run = tx_run(mode, submit, drain_timeout, events);
            &&& run.accepted.is_prefix_of(payload(mode, run.input))
            &&& mode == SessionMode::Stream ==> run.echoed.len() == 0
            &&& mode == SessionMode::Console ==> run.accepted.is_prefix_of(run.echoed)
            &&& run.report == Some(WorkerEventView::TxDrained(StopReason::RxIdle)) ==> {
                &&& run.accepted == payload(mode, run.input)
                &&& mode == SessionMode::Console ==> run.echoed == run.accepted
                &&& !escapes(mode, run.input)
            }
            &&& run.report == Some(WorkerEventView::TxDrained(StopReason::ConsoleEscape)) ==> mode
                == SessionMode::Console
            &&& uncancelled(events) && (run.report matches Some(WorkerEventView::TxDrained(_)))
                ==> {
                &&& run.accepted == payload(mode, run.input)
                &&& mode == SessionMode::Console ==> run.echoed == run.accepted
                &&& run.report == Some(
                    WorkerEventView::TxDrained(
                        if escapes(mode, run.input) {
                            StopReason::ConsoleEscape
                        } else {
                            StopReason::RxIdle
                        },
                    ),
                )
            }
        }),
{
    lemma_tx_cancellable_run(mode, submit, drain_timeout, events);
    let run = tx_run(mode, submit, drain_timeout, events);
    if tx_inv(run) {
        lemma_in_sequence(run);
    }
}

/// Accounting: in every run, cancelled or not, the accepted counter is the number of bytes
/// that the transport accepted, and the completed counter is zero until a drain confirms
/// every accepted byte. A drain is given the timeout of the session.
pub proof fn transmission_is_accounted(
    mode: SessionMode,
    submit: SubmitPolicy,
    drain_timeout: Span,
    events: Seq<TxEventView>,
)
    requires
        all_addressable(events),
    ensures
        ({
            let run = tx_run(mode, submit, drain_timeout, events);
            &&& run.worker.accepted == counted(run.accepted.len() as int)
            &&& run.worker.completed == 0 || run.worker.completed == run.worker.accepted
            &&& run.worker.completed != 0 ==> run.worker.state == TxState::Stopped
            &&& tx_action(run.worker) matches TxAction::Drain { timeout } ==> timeout
                == drain_timeout
            &&& run.report matches Some(WorkerEventView::TxDrained(reason)) ==> (reason
                != StopReason::Cancelled ==> run.worker.completed == run.worker.accepted)
        }),
{
    lemma_tx_counts(mode, submit, drain_timeout, events);
}

/// A transmit worker reports exactly once: it has reported when it has stopped, that it drained
/// or that it failed, and not before.
pub proof fn transmitters_report_once(
    mode: SessionMode,
    submit: SubmitPolicy,
    drain_timeout: Span,
    events: Seq<TxEventView>,
)
    ensures
        ({
            let run = tx_run(mode, submit, drain_timeout, events);
            if run.worker.state == TxState::Stopped {
                &&& run.reports == 1
                &&& run.report matches Some(told) && (told is TxDrained || told is WorkerError)
            } else {
                run.reports == 0 && run.report is None
            }
        }),
    decreases events.len(),
{
    if events.len() > 0 {
        transmitters_report_once(mode, submit, drain_timeout, events.drop_last());
    }
}

/// What the counters and the chunk hold in every run.
spec fn counts_ok(h: TxHistory) -> bool {
    &&& tx_state_ok(h.worker.state)
    &&& h.worker.accepted == counted(h.accepted.len() as int)
    &&& h.worker.state != TxState::Stopped ==> h.worker.completed == 0 && h.report is None
    &&& h.worker.completed == 0 || h.worker.completed == h.worker.accepted
    &&& h.report matches Some(WorkerEventView::TxDrained(reason)) ==> (reason
        != StopReason::Cancelled ==> h.worker.completed == h.worker.accepted)
    &&& match h.worker.state {
        TxState::Echoing { length, .. } => length <= h.chunk.len(),
        TxState::Checking { length, .. } => length <= h.chunk.len(),
        TxState::Writing { length, .. } => length <= h.chunk.len(),
        TxState::Pausing { length, .. } => length <= h.chunk.len(),
        TxState::Draining { reason } => reason != StopReason::Cancelled,
        _ => true,
    }
}

/// Counting in two steps is counting at once.
proof fn lemma_counted_add(total: int, more: int)
    requires
        total >= 0,
        more >= 0,
    ensures
        counted(counted(total) + more) == counted(total + more),
{
}

proof fn lemma_tx_counts_step(h: TxHistory, event: TxEventView)
    requires
        counts_ok(h),
        addressable(event),
    ensures
        counts_ok(tx_record(h, event)),
        tx_record(h, event).worker.drain_timeout == h.worker.drain_timeout,
{
    let next = tx_record(h, event);
    match (h.worker.state, event) {
        (TxState::Reading, TxEventView::Input(bytes)) => {
            lemma_escape_position(bytes);
        },
        (TxState::Writing { sent, length, escape }, TxEventView::Written(outcome)) => {
            lemma_counted_add(h.accepted.len() as int, outcome.completed as int);
        },
        (TxState::Ready, _) => {},
        (TxState::Echoing { .. }, _) => {},
        (TxState::Checking { .. }, _) => {},
        (TxState::Pausing { .. }, _) => {},
        (TxState::Submitting { .. }, _) => {},
        (TxState::Draining { .. }, _) => {},
        _ => {},
    }
}

proof fn lemma_tx_counts(
    mode: SessionMode,
    submit: SubmitPolicy,
    drain_timeout: Span,
    events: Seq<TxEventView>,
)
    requires
        all_addressable(events),
    ensures
        counts_ok(tx_run(mode, submit, drain_timeout, events)),
        tx_run(mode, submit, drain_timeout, events).worker.drain_timeout == drain_timeout,
    decreases events.len(),
{
    if events.len() > 0 {
        let before = events.drop_last();
        assert forall|i: int| 0 <= i < before.len() implies addressable(#[trigger] before[i]) by {
            assert(before[i] == events[i]);
        }
        lemma_tx_counts(mode, submit, drain_timeout, before);
        assert(events.last() == events[events.len() - 1]);
        lemma_tx_counts_step(tx_run(mode, submit, drain_timeout, before), events.last());
    }
}

/// What is transmitted is what comes before the first escape byte: nothing of a stream is held
/// back, and of a console exactly the bytes up to the first 0x1d, which ends the session.
pub proof fn escapes_end_the_payload(input: Seq<u8>)
    ensures
        payload(SessionMode::Stream, input) == input,
        !escapes(SessionMode::Stream, input),
        payload(SessionMode::Console, input).is_prefix_of(input),
        !payload(SessionMode::Console, input).contains(0x1d),
        escapes(SessionMode::Console, input) == input.contains(0x1d),
        !input.contains(0x1d) ==> payload(SessionMode::Console, input) == input,
        input.contains(0x1d) ==> {
            let length = payload(SessionMode::Console, input).len() as int;
            length < input.len() && input[length] == 0x1d
        },
{
    lemma_escape_position(input);
    if !input.contains(0x1d) {
        lemma_payload_whole(SessionMode::Console, input);
    }
}

/// Whatever the worker asks to be written or echoed is due: the bytes that it offers the
/// transport follow what the transport has accepted and complete the payload of the input read
/// so far, and the bytes that it echoes follow those echoed before and complete it too, while
/// nothing of them has been offered yet.
pub proof fn transfers_are_due(
    mode: SessionMode,
    submit: SubmitPolicy,
    drain_timeout: Span,
    events: Seq<TxEventView>,
)
    requires
        stays_cancelled(events),
        all_addressable(events),
    ensures
        ({
            let run = tx_run(mode, submit, drain_timeout, events);
            &&& tx_action(run.worker) matches TxAction::Write { start, end } ==> {
                &&& start < end <= run.chunk.len()
                &&& run.accepted + run.chunk.subrange(start as int, end as int) == payload(
                    mode,
                    run.input,
                )
                &&& mode == SessionMode::Console ==> run.echoed == payload(mode, run.input)
            }
            &&& tx_action(run.worker) matches TxAction::Echo { length } ==> {
                &&& mode == SessionMode::Console
                &&& 0 < length <= run.chunk.len()
                &&& run.echoed + run.chunk.take(length as int) == payload(mode, run.input)
                &&& run.accepted == run.echoed
            }
        }),
{
    lemma_tx_cancellable_run(mode, submit, drain_timeout, events);
    let run = tx_run(mode, submit, drain_timeout, events);
    match run.worker.state {
        TxState::Writing { sent, length, escape } => {
            lemma_payload_split(mode, earlier(run), run.chunk);
            assert(run.chunk.take(sent as int) + run.chunk.subrange(sent as int, length as int)
                =~= run.chunk.take(length as int));
            assert(run.accepted + run.chunk.subrange(sent as int, length as int) =~= earlier(run)
                + run.chunk.take(length as int));
        },
        TxState::Echoing { length, escape } => {
            lemma_payload_split(mode, earlier(run), run.chunk);
        },
        _ => {},
    }
}

/// The bytes that were submitted to the device: those that the transport had accepted when it
/// last carried out a submission.
pub open spec fn submitted(
    mode: SessionMode,
    submit: SubmitPolicy,
    drain_timeout: Span,
    events: Seq<TxEventView>,
) -> Seq<u8>
    decreases events.len(),
{
    if events.len() == 0 {
        Seq::empty()
    } else {
        let before = tx_run(mode, submit, drain_timeout, events.drop_last());
        if tx_action(before.worker) == TxAction::Submit && events.last() == TxEventView::Submitted {
            before.accepted
        } else {
            submitted(mode, submit, drain_timeout, events.drop_last())
        }
    }
}

/// Nothing typed is left behind: in a console, whatever its policy, and in a stream that submits
/// every chunk, every byte that the transport accepted was submitted before more input is read
/// and before the transport is drained.
pub proof fn typed_bytes_are_submitted(
    mode: SessionMode,
    submit: SubmitPolicy,
    drain_timeout: Span,
    events: Seq<TxEventView>,
)
    requires
        mode == SessionMode::Console || submit == SubmitPolicy::EveryChunk,
    ensures
        ({
            let run = tx_run(mode, submit, drain_timeout, events);
            let action = tx_action(run.worker);
            action == TxAction::ReadInput || action is Drain ==> submitted(
                mode,
                submit,
                drain_timeout,
                events,
            ) == run.accepted
        }),
{
    lemma_submitted(mode, submit, drain_timeout, events);
}

#[verifier::spinoff_prover]
#[verifier::rlimit(40)]
proof fn lemma_submitted(
    mode: SessionMode,
    submit: SubmitPolicy,
    drain_timeout: Span,
    events: Seq<TxEventView>,
)
    requires
        mode == SessionMode::Console || submit == SubmitPolicy::EveryChunk,
    ensures
        ({
            let run = tx_run(mode, submit, drain_timeout, events);
            &&& run.worker.mode == mode
            &&& run.worker.submit == submit
            &&& run.worker.state is Ready || run.worker.state is Reading || run.worker.state
                is Draining ==> submitted(mode, submit, drain_timeout, events) == run.accepted
        }),
    decreases events.len(),
{
    if events.len() > 0 {
        lemma_submitted(mode, submit, drain_timeout, events.drop_last());
        let h = tx_run(mode, submit, drain_timeout, events.drop_last());
        let next = tx_record(h, events.last());
        assert(tx_run(mode, submit, drain_timeout, events) == next);
        match (h.worker.state, events.last()) {
            (TxState::Ready, TxEventView::CancelFlag(_)) => {},
            (TxState::Reading, TxEventView::Input(bytes)) => {
                assert(next.accepted == h.accepted);
            },
            (TxState::Reading, TxEventView::InputInterrupted) => {},
            (TxState::Reading, TxEventView::InputFailed(_)) => {},
            (TxState::Echoing { .. }, TxEventView::Echoed) => {},
            (TxState::Echoing { .. }, TxEventView::EchoFailed(_)) => {},
            (TxState::Checking { .. }, TxEventView::CancelFlag(_)) => {},
            (TxState::Writing { sent, length, escape }, TxEventView::Written(outcome)) => {
                let state = next.worker.state;
                assert(!(state is Ready || state is Reading || state is Draining));
            },
            (TxState::Pausing { .. }, TxEventView::Paused) => {},
            (TxState::Submitting { .. }, TxEventView::Submitted) => {},
            (TxState::Draining { .. }, _) => {},
            _ => {
                assert(next =~= h);
            },
        }
    }
}

/// Nothing cuts a session short: the transport is drained only behind an escape or behind the end
/// of input, which is an empty chunk.
pub proof fn drains_have_causes(
    mode: SessionMode,
    submit: SubmitPolicy,
    drain_timeout: Span,
    events: Seq<TxEventView>,
)
    ensures
        tx_action(tx_run(mode, submit, drain_timeout, events).worker) is Drain ==> {
            ||| mode == SessionMode::Console && tx_run(
                mode,
                submit,
                drain_timeout,
                events,
            ).input.contains(0x1d)
            ||| exists|i: int|
                0 <= i < events.len() && ((#[trigger] events[i]) matches TxEventView::Input(bytes)
                    && bytes.len() == 0)
        },
{
    lemma_drain_causes(mode, submit, drain_timeout, events);
}

/// Whether the input has ended.
spec fn ended(events: Seq<TxEventView>) -> bool {
    exists|i: int|
        0 <= i < events.len() && ((#[trigger] events[i]) matches TxEventView::Input(bytes)
            && bytes.len() == 0)
}

#[verifier::spinoff_prover]
#[verifier::rlimit(40)]
proof fn lemma_drain_causes(
    mode: SessionMode,
    submit: SubmitPolicy,
    drain_timeout: Span,
    events: Seq<TxEventView>,
)
    ensures
        ({
            let run = tx_run(mode, submit, drain_timeout, events);
            &&& run.worker.mode == mode
            &&& match run.worker.state {
                TxState::Echoing { escape, .. } => escape ==> escapes(mode, run.input),
                TxState::Checking { escape, .. } => escape ==> escapes(mode, run.input),
                TxState::Writing { escape, .. } => escape ==> escapes(mode, run.input),
                TxState::Pausing { escape, .. } => escape ==> escapes(mode, run.input),
                TxState::Submitting { escape } => escape ==> escapes(mode, run.input),
                TxState::Draining { .. } => escapes(mode, run.input) || ended(events),
                _ => true,
            }
        }),
    decreases events.len(),
{
    if events.len() > 0 {
        let before = events.drop_last();
        lemma_drain_causes(mode, submit, drain_timeout, before);
        let h = tx_run(mode, submit, drain_timeout, before);
        let event = events.last();
        let next = tx_record(h, event);
        assert(event == events[events.len() - 1]);
        if ended(before) {
            let i = choose|i: int|
                0 <= i < before.len() && ((#[trigger] before[i]) matches TxEventView::Input(bytes)
                    && bytes.len() == 0);
            assert(events[i] == before[i]);
        }
        match (h.worker.state, event) {
            (TxState::Reading, TxEventView::Input(bytes)) => {
                if escapes(mode, bytes) {
                    let i = bytes.index_of(0x1d);
                    assert(next.input[h.input.len() + i] == 0x1d);
                }
            },
            (TxState::Ready, TxEventView::CancelFlag(_)) => {},
            (TxState::Reading, TxEventView::InputInterrupted) => {},
            (TxState::Reading, TxEventView::InputFailed(_)) => {},
            (TxState::Echoing { .. }, TxEventView::Echoed) => {},
            (TxState::Echoing { .. }, TxEventView::EchoFailed(_)) => {},
            (TxState::Checking { .. }, TxEventView::CancelFlag(_)) => {},
            (TxState::Writing { .. }, TxEventView::Written(outcome)) => {
                assert(next.input == h.input);
            },
            (TxState::Pausing { .. }, TxEventView::Paused) => {},
            (TxState::Submitting { .. }, TxEventView::Submitted) => {},
            (TxState::Draining { .. }, _) => {},
            _ => {
                assert(next =~= h);
            },
        }
    }
}

/// A stream whose data waits for the drain is never submitted chunk by chunk.
pub proof fn streams_wait_for_the_drain(drain_timeout: Span, events: Seq<TxEventView>)
    ensures
        tx_action(
            tx_run(SessionMode::Stream, SubmitPolicy::ConsoleOnly, drain_timeout, events).worker,
        ) != TxAction::Submit,
{
    lemma_unsubmitted(drain_timeout, events);
}

#[verifier::spinoff_prover]
#[verifier::rlimit(40)]
proof fn lemma_unsubmitted(drain_timeout: Span, events: Seq<TxEventView>)
    ensures
        ({
            let worker = tx_run(
                SessionMode::Stream,
                SubmitPolicy::ConsoleOnly,
                drain_timeout,
                events,
            ).worker;
            &&& worker.mode == SessionMode::Stream
            &&& worker.submit == SubmitPolicy::ConsoleOnly
            &&& !(worker.state is Submitting)
        }),
    decreases events.len(),
{
    if events.len() > 0 {
        lemma_unsubmitted(drain_timeout, events.drop_last());
    }
}

/// A receive worker together with every byte that went through it.
pub struct RxHistory {
    pub worker: RxWorkerView,
    /// The bytes that the transport completed.
    pub arrived: Seq<u8>,
    /// The arrived bytes that are being delivered.
    pub chunk: Seq<u8>,
    /// The bytes written to the output.
    pub delivered: Seq<u8>,
    /// The error that the coordinator was told, if there was one.
    pub failure: Option<ErrorView>,
}

/// The history before the first event.
pub open spec fn rx_start(capacity: usize) -> RxHistory {
    RxHistory {
        worker: RxWorkerView { capacity, state: RxState::Ready, pending: None, received: 0 },
        arrived: Seq::empty(),
        chunk: Seq::empty(),
        delivered: Seq::empty(),
        failure: None,
    }
}

/// The history after one more event; `buffer` is what the receive buffer holds then.
pub open spec fn rx_record(history: RxHistory, event: RxEventView, buffer: Seq<u8>) -> RxHistory {
    let (worker, told) = rx_next(history.worker, event);
    let failure = if told.failure is Some {
        told.failure
    } else {
        history.failure
    };
    let next = RxHistory { worker, failure, ..history };
    match (history.worker.state, event) {
        (RxState::Reading, RxEventView::Received(outcome)) => if outcome.completed
            <= history.worker.capacity {
            let bytes = buffer.take(outcome.completed as int);
            RxHistory { arrived: history.arrived + bytes, chunk: bytes, ..next }
        } else {
            next
        },
        (RxState::Delivering { .. }, RxEventView::Delivered) => RxHistory {
            delivered: history.delivered + history.chunk,
            ..next
        },
        _ => next,
    }
}

/// The history of a run.
pub open spec fn rx_run(capacity: usize, events: Seq<(RxEventView, Seq<u8>)>) -> RxHistory
    decreases events.len(),
{
    if events.len() == 0 {
        rx_start(capacity)
    } else {
        rx_record(rx_run(capacity, events.drop_last()), events.last().0, events.last().1)
    }
}

/// Whether the receive buffer always has its size.
pub open spec fn buffered(capacity: usize, events: Seq<(RxEventView, Seq<u8>)>) -> bool {
    forall|i: int| 0 <= i < events.len() ==> (#[trigger] events[i]).1.len() == capacity
}

/// What holds of every receive history.
spec fn rx_inv(h: RxHistory) -> bool {
    &&& h.delivered.is_prefix_of(h.arrived)
    &&& h.worker.received == counted(h.delivered.len() as int)
    &&& match h.worker.state {
        RxState::Delivering { length } => {
            &&& h.chunk.len() == length
            &&& h.arrived == h.delivered + h.chunk
        },
        RxState::Stopped => h.failure is None ==> h.delivered == h.arrived,
        _ => h.delivered == h.arrived,
    }
}

proof fn lemma_rx_run(capacity: usize, events: Seq<(RxEventView, Seq<u8>)>)
    requires
        buffered(capacity, events),
    ensures
        rx_inv(rx_run(capacity, events)),
        rx_run(capacity, events).worker.capacity == capacity,
    decreases events.len(),
{
    if events.len() > 0 {
        let before = events.drop_last();
        assert forall|i: int| 0 <= i < before.len() implies (#[trigger] before[i]).1.len()
            == capacity by {
            assert(before[i] == events[i]);
        }
        lemma_rx_run(capacity, before);
        let h = rx_run(capacity, before);
        let (event, buffer) = events.last();
        assert(events.last() == events[events.len() - 1]);
        let next = rx_record(h, event, buffer);
        match (h.worker.state, event) {
            (RxState::Reading, RxEventView::Received(outcome)) => {
                if outcome.completed == 0 {
                    assert(next.arrived =~= h.arrived);
                }
                assert(next.arrived.take(h.delivered.len() as int) =~= h.delivered);
            },
            (RxState::Delivering { length }, RxEventView::Delivered) => {
                lemma_counted_add(h.delivered.len() as int, length as int);
                assert(next.delivered =~= h.arrived);
            },
            _ => {},
        }
    }
}

/// Whether the output failed to take bytes.
pub open spec fn delivery_failed(events: Seq<(RxEventView, Seq<u8>)>) -> bool {
    exists|i: int| 0 <= i < events.len() && (#[trigger] events[i]).0 is DeliveryFailed
}

/// Without a failure of the output, whatever arrived is delivered or being delivered.
proof fn lemma_rx_delivers(capacity: usize, events: Seq<(RxEventView, Seq<u8>)>)
    requires
        buffered(capacity, events),
        !delivery_failed(events),
    ensures
        ({
            let run = rx_run(capacity, events);
            run.worker.state is Delivering || run.delivered == run.arrived
        }),
    decreases events.len(),
{
    if events.len() > 0 {
        let before = events.drop_last();
        assert forall|i: int| 0 <= i < before.len() implies (#[trigger] before[i]).1.len()
            == capacity && !(before[i].0 is DeliveryFailed) by {
            assert(before[i] == events[i]);
        }
        lemma_rx_run(capacity, before);
        lemma_rx_delivers(capacity, before);
        let h = rx_run(capacity, before);
        let (event, buffer) = events.last();
        assert(events.last() == events[events.len() - 1]);
        let next = rx_record(h, event, buffer);
        match (h.worker.state, event) {
            (RxState::Reading, RxEventView::Received(outcome)) => {
                if outcome.completed == 0 {
                    assert(next.arrived =~= h.arrived);
                }
            },
            _ => {},
        }
    }
}

/// Delivery: the bytes written to the output are, in order and without gaps, the beginning of
/// the bytes that arrived, and the receive counter is their number. Unless a chunk is being
/// delivered, every byte that arrived is delivered; a worker that has stopped, for whatever
/// reason but a failure of the output itself, has delivered every byte too, and so has every
/// worker that reported no error.
pub proof fn reception_is_transparent(capacity: usize, events: Seq<(RxEventView, Seq<u8>)>)
    requires
        buffered(capacity, events),
    ensures
        ({
            let run = rx_run(capacity, events);
            &&& run.delivered.is_prefix_of(run.arrived)
            &&& run.worker.received == counted(run.delivered.len() as int)
            &&& !(run.worker.state is Delivering) && run.worker.state != RxState::Stopped
                ==> run.delivered == run.arrived
            &&& !(run.worker.state is Delivering) && !delivery_failed(events) ==> run.delivered
                == run.arrived
            &&& !(run.worker.state is Delivering) && run.failure is None ==> run.delivered
                == run.arrived
        }),
{
    lemma_rx_run(capacity, events);
    if !delivery_failed(events) {
        lemma_rx_delivers(capacity, events);
    }
}

}
