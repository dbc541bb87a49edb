//! The transmit and receive halves of a session, as machines that the session threads run.
//!
//! Each worker names the one thing it waits for ([`TxWorker::action`], [`RxWorker::action`]);
//! the thread does it and hands the result back ([`TxWorker::advance`],
//! [`RxWorker::advance`]).

use vstd::prelude::*;
use vstd::string::*;

use crate::error::{error_view, Category, Error, ErrorView};
use crate::span::Span;
use crate::text::joined;

use super::session::{SessionMode, StopReason};
use super::transport::{
    FailureView, OutcomeView, TransferFailure, TransferFailureKind, TransferOutcome,
};

verus! {

/// Console escape byte (Ctrl-]).
pub const CONSOLE_ESCAPE: u8 = 0x1d;

/// Maximum application-owned buffer in either transfer direction.
pub const APPLICATION_QUEUE_BYTES: usize = 65536;

/// How long a worker pauses after a transfer that moved nothing, in milliseconds.
pub const WOULD_BLOCK_BACKOFF_MILLIS: u64 = 1;

/// What a worker tells the session coordinator.
#[derive(Debug)]
pub enum WorkerEvent {
    /// The transmitter finished, and why it stopped reading input.
    TxDrained(StopReason),
    /// Bytes arrived and were delivered.
    RxActivity,
    /// A worker met an error.
    WorkerError(Error),
    /// The transmit worker is gone.
    TxStopped,
    /// The receive worker is gone.
    RxStopped,
}

/// A worker event with its error taken by category and diagnostic.
pub enum WorkerEventView {
    TxDrained(StopReason),
    RxActivity,
    WorkerError(ErrorView),
    TxStopped,
    RxStopped,
}

impl DeepView for WorkerEvent {
    type V = WorkerEventView;

    open spec fn deep_view(&self) -> WorkerEventView {
        match self {
            WorkerEvent::TxDrained(reason) => WorkerEventView::TxDrained(*reason),
            WorkerEvent::RxActivity => WorkerEventView::RxActivity,
            WorkerEvent::WorkerError(error) => WorkerEventView::WorkerError(error.deep_view()),
            WorkerEvent::TxStopped => WorkerEventView::TxStopped,
            WorkerEvent::RxStopped => WorkerEventView::RxStopped,
        }
    }
}

/// The error that a transfer failure ends a session with. Interrupted, blocked and timed-out
/// transfers are retried instead.
pub open spec fn transfer_error(failure: FailureView) -> Option<ErrorView> {
    match failure.kind {
        TransferFailureKind::Interrupted => None,
        TransferFailureKind::WouldBlock => None,
        TransferFailureKind::TimedOut => None,
        TransferFailureKind::Access => Some(error_view(Category::Access, failure.message)),
        TransferFailureKind::Disconnected => Some(error_view(Category::Access, failure.message)),
        TransferFailureKind::Protocol => Some(error_view(Category::Protocol, failure.message)),
    }
}

/// Turns a transfer failure into the error that ends the session, if it is not to be retried.
pub fn map_transfer_failure(failure: TransferFailure) -> (error: Option<Error>)
    ensures
        error.deep_view() == transfer_error(failure.deep_view()),
{
    match failure.kind {
        TransferFailureKind::Interrupted => None,
        TransferFailureKind::WouldBlock => None,
        TransferFailureKind::TimedOut => None,
        TransferFailureKind::Access => Some(Error::Access(failure.message)),
        TransferFailureKind::Disconnected => Some(Error::Access(failure.message)),
        TransferFailureKind::Protocol => Some(Error::Protocol(failure.message)),
    }
}

/// A byte count as a 64-bit counter holds it.
pub open spec fn counted(bytes: int) -> u64 {
    (bytes % 0x1_0000_0000_0000_0000) as u64
}

/// Adds to a 64-bit byte counter, which wraps around.
fn count(total: u64, bytes: usize) -> (sum: u64)
    ensures
        sum == counted(total + bytes),
{
    total.wrapping_add(bytes as u64)
}

/// How many bytes come before the first console escape.
pub open spec fn escape_position(bytes: Seq<u8>) -> nat
    decreases bytes.len(),
{
    if bytes.len() == 0 || bytes[0] == CONSOLE_ESCAPE {
        0
    } else {
        1 + escape_position(bytes.drop_first())
    }
}

/// The part of the input that is transmitted: all of it in a stream, and what comes before
/// the first escape in a console.
pub open spec fn payload(mode: SessionMode, input: Seq<u8>) -> Seq<u8> {
    match mode {
        SessionMode::Stream => input,
        SessionMode::Console => input.take(escape_position(input) as int),
    }
}

/// Whether the input ends a console session.
pub open spec fn escapes(mode: SessionMode, input: Seq<u8>) -> bool {
    mode == SessionMode::Console && input.contains(CONSOLE_ESCAPE)
}

/// The escape position is the first place that holds the escape, or the end.
pub proof fn lemma_escape_position(bytes: Seq<u8>)
    ensures
        escape_position(bytes) <= bytes.len(),
        forall|i: int| 0 <= i < escape_position(bytes) ==> bytes[i] != CONSOLE_ESCAPE,
        escape_position(bytes) < bytes.len() ==> bytes[escape_position(bytes) as int]
            == CONSOLE_ESCAPE,
        bytes.contains(CONSOLE_ESCAPE) == (escape_position(bytes) < bytes.len()),
    decreases bytes.len(),
{
    if bytes.len() == 0 || bytes[0] == CONSOLE_ESCAPE {
    } else {
        let rest = bytes.drop_first();
        lemma_escape_position(rest);
        assert forall|i: int| 0 <= i < escape_position(bytes) implies bytes[i]
            != CONSOLE_ESCAPE by {
            if i > 0 {
                assert(bytes[i] == rest[i - 1]);
            }
        }
        if escape_position(bytes) < bytes.len() {
            assert(bytes[escape_position(bytes) as int] == rest[escape_position(rest) as int]);
        }
        if bytes.contains(CONSOLE_ESCAPE) {
            let i = choose|i: int| 0 <= i < bytes.len() && bytes[i] == CONSOLE_ESCAPE;
            assert(i >= escape_position(bytes));
        }
    }
}

/// A position whose predecessors are not escapes and which is an escape or the end is the
/// escape position.
proof fn lemma_escape_position_unique(bytes: Seq<u8>, position: int)
    requires
        0 <= position <= bytes.len(),
        forall|i: int| 0 <= i < position ==> bytes[i] != CONSOLE_ESCAPE,
        position < bytes.len() ==> bytes[position] == CONSOLE_ESCAPE,
    ensures
        escape_position(bytes) == position,
{
    lemma_escape_position(bytes);
    if escape_position(bytes) < position {
        assert(bytes[escape_position(bytes) as int] == CONSOLE_ESCAPE);
    }
    if position < escape_position(bytes) {
        assert(bytes[position] != CONSOLE_ESCAPE);
    }
}

/// Finds how many bytes come before the first console escape.
pub fn find_escape(bytes: &[u8]) -> (position: usize)
    ensures
        position == escape_position(bytes@),
        position <= bytes@.len(),
{
    let mut i: usize = 0;
    while i < bytes.len()
        invariant
            i <= bytes@.len(),
            forall|k: int| 0 <= k < i ==> bytes@[k] != CONSOLE_ESCAPE,
        decreases bytes@.len() - i,
    {
        if bytes[i] == CONSOLE_ESCAPE {
            proof {
                lemma_escape_position_unique(bytes@, i as int);
            }
            return i;
        }
        i = i + 1;
    }
    proof {
        lemma_escape_position_unique(bytes@, i as int);
    }
    i
}

/// When the transmit worker submits transport-buffered data.
#[derive(Clone, Copy, Debug, PartialEq, Eq, Structural)]
pub enum SubmitPolicy {
    /// After every chunk of input.
    EveryChunk,
    /// After every chunk of console input; stream data waits for the drain.
    ConsoleOnly,
}

/// Where the transmit worker stands. `sent` of the `length` transmitted bytes of the current
/// chunk are accepted; `escape` tells whether the chunk ended the console.
#[derive(Clone, Copy, Debug, PartialEq, Eq, Structural)]
pub enum TxState {
    /// About to look at the cancellation flag before reading.
    Ready,
    /// Waiting for input.
    Reading,
    /// Waiting for the local echo.
    Echoing { length: usize, escape: bool },
    /// About to look at the cancellation flag before writing.
    Checking { sent: usize, length: usize, escape: bool },
    /// Waiting for the transport to take bytes.
    Writing { sent: usize, length: usize, escape: bool },
    /// Waiting out a transfer that moved nothing.
    Pausing { sent: usize, length: usize, escape: bool },
    /// Waiting for the transport to submit what it buffered.
    Submitting { escape: bool },
    /// Waiting for the device to finish transmitting.
    Draining { reason: StopReason },
    /// Done.
    Stopped,
}

/// What the thread of the transmit worker does next.
#[derive(Clone, Copy, Debug, PartialEq, Eq, Structural)]
pub enum TxAction {
    /// Look at the cancellation flag.
    CheckCancelled,
    /// Read input into the chunk buffer.
    ReadInput,
    /// Write the first `length` bytes of the chunk to the local output, and flush it.
    Echo { length: usize },
    /// Write the bytes of the chunk from `start` up to `end` to the transport.
    Write { start: usize, end: usize },
    /// Sleep for the back-off time.
    Pause,
    /// Submit transport-buffered data.
    Submit,
    /// Wait for the device to finish transmitting, for at most `timeout`.
    Drain { timeout: Span },
    /// Leave.
    Stop,
}

/// What the thread of the transmit worker hands back.
#[derive(Debug)]
pub enum TxEvent<'a> {
    /// The cancellation flag as it was seen.
    CancelFlag(bool),
    /// A chunk of input; an empty one is the end of input.
    Input(&'a [u8]),
    /// Reading was interrupted.
    InputInterrupted,
    /// Reading failed.
    InputFailed(String),
    /// The echo is written.
    Echoed,
    /// The echo failed.
    EchoFailed(String),
    /// The transport's answer to a write.
    Written(TransferOutcome),
    /// The pause is over.
    Paused,
    /// The submission is done.
    Submitted,
    /// Transmission is complete.
    Drained,
    /// Transmission could not be completed.
    DrainFailed(Error),
}

/// A transmit event over plain values.
pub enum TxEventView {
    CancelFlag(bool),
    Input(Seq<u8>),
    InputInterrupted,
    InputFailed(Seq<char>),
    Echoed,
    EchoFailed(Seq<char>),
    Written(OutcomeView),
    Paused,
    Submitted,
    Drained,
    DrainFailed(ErrorView),
}

impl<'a> DeepView for TxEvent<'a> {
    type V = TxEventView;

    open spec fn deep_view(&self) -> TxEventView {
        match self {
            TxEvent::CancelFlag(flag) => TxEventView::CancelFlag(*flag),
            TxEvent::Input(bytes) => TxEventView::Input(bytes@),
            TxEvent::InputInterrupted => TxEventView::InputInterrupted,
            TxEvent::InputFailed(message) => TxEventView::InputFailed(message@),
            TxEvent::Echoed => TxEventView::Echoed,
            TxEvent::EchoFailed(message) => TxEventView::EchoFailed(message@),
            TxEvent::Written(outcome) => TxEventView::Written(outcome.deep_view()),
            TxEvent::Paused => TxEventView::Paused,
            TxEvent::Submitted => TxEventView::Submitted,
            TxEvent::Drained => TxEventView::Drained,
            TxEvent::DrainFailed(error) => TxEventView::DrainFailed(error.deep_view()),
        }
    }
}

/// The transmit worker: it reads input, echoes it in a console, writes it to the transport,
/// and drains the transport at the end.
#[derive(Clone, Copy, Debug, PartialEq, Eq, Structural)]
pub struct TxWorker {
    pub mode: SessionMode,
    pub submit: SubmitPolicy,
    /// How long the final drain may take.
    pub drain_timeout: Span,
    pub state: TxState,
    /// Bytes that the transport accepted.
    pub accepted: u64,
    /// Accepted bytes that a drain confirmed.
    pub completed: u64,
}

/// What the thread does in each state.
pub open spec fn tx_action(worker: TxWorker) -> TxAction {
    match worker.state {
        TxState::Ready => TxAction::CheckCancelled,
        TxState::Reading => TxAction::ReadInput,
        TxState::Echoing { length, .. } => TxAction::Echo { length },
        TxState::Checking { .. } => TxAction::CheckCancelled,
        TxState::Writing { sent, length, .. } => TxAction::Write { start: sent, end: length },
        TxState::Pausing { .. } => TxAction::Pause,
        TxState::Submitting { .. } => TxAction::Submit,
        TxState::Draining { .. } => TxAction::Drain { timeout: worker.drain_timeout },
        TxState::Stopped => TxAction::Stop,
    }
}

/// A worker in another state.
pub open spec fn tx_at(worker: TxWorker, state: TxState) -> TxWorker {
    TxWorker { state, ..worker }
}

/// A worker that leaves with an error.
pub open spec fn tx_failed(worker: TxWorker, error: ErrorView) -> (
    TxWorker,
    Option<WorkerEventView>,
) {
    (tx_at(worker, TxState::Stopped), Some(WorkerEventView::WorkerError(error)))
}

/// Where a worker goes once a chunk is submitted.
pub open spec fn tx_after_submit(escape: bool) -> TxState {
    if escape {
        TxState::Draining { reason: StopReason::ConsoleEscape }
    } else {
        TxState::Ready
    }
}

/// Where a worker goes once a chunk is written, or given up to a cancellation.
pub open spec fn tx_after_chunk(worker: TxWorker, escape: bool) -> TxState {
    if worker.submit == SubmitPolicy::EveryChunk || worker.mode == SessionMode::Console {
        TxState::Submitting { escape }
    } else {
        tx_after_submit(escape)
    }
}

/// Where a worker goes with `sent` of `length` bytes written.
pub open spec fn tx_writing(worker: TxWorker, sent: usize, length: usize, escape: bool) -> TxState {
    if sent < length {
        TxState::Checking { sent, length, escape }
    } else {
        tx_after_chunk(worker, escape)
    }
}

/// What follows a chunk of input.
pub open spec fn tx_after_input(worker: TxWorker, bytes: Seq<u8>) -> TxState {
    let length = payload(worker.mode, bytes).len() as usize;
    let escape = escapes(worker.mode, bytes);
    if bytes.len() == 0 {
        TxState::Draining { reason: StopReason::RxIdle }
    } else if worker.mode == SessionMode::Console && length != 0 {
        TxState::Echoing { length, escape }
    } else {
        tx_writing(worker, 0, length, escape)
    }
}

/// What follows the transport's answer to a write: completed bytes are counted before the
/// failure is handled.
pub open spec fn tx_after_write(
    worker: TxWorker,
    sent: usize,
    length: usize,
    escape: bool,
    outcome: OutcomeView,
) -> (TxWorker, Option<WorkerEventView>) {
    if outcome.completed > length - sent {
        tx_failed(
            worker,
            error_view(Category::Protocol, "transport reported more TX bytes than submitted"@),
        )
    } else {
        let taken = TxWorker { accepted: counted(worker.accepted + outcome.completed), ..worker };
        let next = tx_writing(taken, (sent + outcome.completed) as usize, length, escape);
        match outcome.failure {
            Some(failure) => match transfer_error(failure) {
                Some(error) => tx_failed(taken, error),
                None => if outcome.completed == 0 {
                    (tx_at(taken, TxState::Pausing { sent, length, escape }), None)
                } else {
                    (tx_at(taken, next), None)
                },
            },
            None => if outcome.completed == 0 {
                tx_failed(
                    taken,
                    error_view(
                        Category::Protocol,
                        "transport completed a zero-length TX without status"@,
                    ),
                )
            } else {
                (tx_at(taken, next), None)
            },
        }
    }
}

/// One step of the transmit worker. An event that the worker does not wait for changes
/// nothing.
pub open spec fn tx_next(worker: TxWorker, event: TxEventView) -> (
    TxWorker,
    Option<WorkerEventView>,
) {
    match (worker.state, event) {
        (TxState::Ready, TxEventView::CancelFlag(flag)) => if flag {
            (
                tx_at(worker, TxState::Stopped),
                Some(WorkerEventView::TxDrained(StopReason::Cancelled)),
            )
        } else {
            (tx_at(worker, TxState::Reading), None)
        },
        (TxState::Reading, TxEventView::Input(bytes)) => (
            tx_at(worker, tx_after_input(worker, bytes)),
            None,
        ),
        (TxState::Reading, TxEventView::InputInterrupted) => (
            tx_at(worker, TxState::Ready),
            None,
        ),
        (TxState::Reading, TxEventView::InputFailed(message)) => tx_failed(
            worker,
            error_view(Category::Access, "stdin read failed: "@ + message),
        ),
        (TxState::Echoing { length, escape }, TxEventView::Echoed) => (
            tx_at(worker, tx_writing(worker, 0, length, escape)),
            None,
        ),
        (TxState::Echoing { .. }, TxEventView::EchoFailed(message)) => tx_failed(
            worker,
            error_view(Category::Access, "local echo write failed: "@ + message),
        ),
        (TxState::Checking { sent, length, escape }, TxEventView::CancelFlag(flag)) => if flag {
            (tx_at(worker, tx_after_chunk(worker, escape)), None)
        } else {
            (tx_at(worker, TxState::Writing { sent, length, escape }), None)
        },
        (
            TxState::Writing { sent, length, escape },
            TxEventView::Written(outcome),
        ) => tx_after_write(worker, sent, length, escape, outcome),
        (TxState::Pausing { sent, length, escape }, TxEventView::Paused) => (
            tx_at(worker, TxState::Checking { sent, length, escape }),
            None,
        ),
        (TxState::Submitting { escape }, TxEventView::Submitted) => (
            tx_at(worker, tx_after_submit(escape)),
            None,
        ),
        (TxState::Draining { reason }, TxEventView::Drained) => (
            TxWorker { state: TxState::Stopped, completed: worker.accepted, ..worker },
            Some(WorkerEventView::TxDrained(reason)),
        ),
        (TxState::Draining { .. }, TxEventView::DrainFailed(error)) => tx_failed(worker, error),
        _ => (worker, None),
    }
}

/// Whether the counts of a chunk in progress are in order.
pub open spec fn tx_state_ok(state: TxState) -> bool {
    match state {
        TxState::Echoing { length, .. } => length > 0,
        TxState::Checking { sent, length, .. } => sent < length,
        TxState::Writing { sent, length, .. } => sent < length,
        TxState::Pausing { sent, length, .. } => sent < length,
        _ => true,
    }
}

impl TxWorker {
    /// Whether the counts of a chunk in progress are in order.
    pub open spec fn wf(&self) -> bool {
        tx_state_ok(self.state)
    }

    /// A worker that has done nothing.
    pub fn new(mode: SessionMode, submit: SubmitPolicy, drain_timeout: Span) -> (worker: Self)
        ensures
            worker == (TxWorker {
                mode,
                submit,
                drain_timeout,
                state: TxState::Ready,
                accepted: 0,
                completed: 0,
            }),
            worker.wf(),
    {
        TxWorker {
            mode,
            submit,
            drain_timeout,
            state: TxState::Ready,
            accepted: 0,
            completed: 0,
        }
    }

    /// What the thread does next.
    pub fn action(&self) -> (action: TxAction)
        ensures
            action == tx_action(*self),
    {
        match self.state {
            TxState::Ready => TxAction::CheckCancelled,
            TxState::Reading => TxAction::ReadInput,
            TxState::Echoing { length, .. } => TxAction::Echo { length },
            TxState::Checking { .. } => TxAction::CheckCancelled,
            TxState::Writing { sent, length, .. } => TxAction::Write { start: sent, end: length },
            TxState::Pausing { .. } => TxAction::Pause,
            TxState::Submitting { .. } => TxAction::Submit,
            TxState::Draining { .. } => TxAction::Drain { timeout: self.drain_timeout },
            TxState::Stopped => TxAction::Stop,
        }
    }

    /// The state after a chunk is submitted.
    fn after_submit(escape: bool) -> (state: TxState)
        ensures
            state == tx_after_submit(escape),
    {
        if escape {
            TxState::Draining { reason: StopReason::ConsoleEscape }
        } else {
            TxState::Ready
        }
    }

    /// The state after a chunk is written or given up.
    fn after_chunk(&self, escape: bool) -> (state: TxState)
        ensures
            state == tx_after_chunk(*self, escape),
    {
        if self.submit == SubmitPolicy::EveryChunk || self.mode == SessionMode::Console {
            TxState::Submitting { escape }
        } else {
            Self::after_submit(escape)
        }
    }

    /// The state with `sent` of `length` bytes written.
    fn writing(&self, sent: usize, length: usize, escape: bool) -> (state: TxState)
        ensures
            state == tx_writing(*self, sent, length, escape),
    {
        if sent < length {
            TxState::Checking { sent, length, escape }
        } else {
            self.after_chunk(escape)
        }
    }

    /// The state after a chunk of input.
    fn after_input(&self, bytes: &[u8]) -> (state: TxState)
        ensures
            state == tx_after_input(*self, bytes@),
    {
        if bytes.len() == 0 {
            return TxState::Draining { reason: StopReason::RxIdle };
        }
        let length: usize;
        let escape: bool;
        if self.mode == SessionMode::Console {
            length = find_escape(bytes);
            escape = length < bytes.len();
            proof {
                lemma_escape_position(bytes@);
            }
            if length != 0 {
                return TxState::Echoing { length, escape };
            }
        } else {
            length = bytes.len();
            escape = false;
        }
        self.writing(0, length, escape)
    }

    /// Leaves with an error.
    fn fail(&mut self, error: Error) -> (report: Option<WorkerEvent>)
        ensures
            (*final(self), report.deep_view()) == tx_failed(*old(self), error.deep_view()),
    {
        self.state = TxState::Stopped;
        Some(WorkerEvent::WorkerError(error))
    }

    /// Takes the transport's answer to a write.
    fn after_write(
        &mut self,
        sent: usize,
        length: usize,
        escape: bool,
        outcome: TransferOutcome,
    ) -> (report: Option<WorkerEvent>)
        requires
            sent < length,
        ensures
            (*final(self), report.deep_view()) == tx_after_write(
                *old(self),
                sent,
                length,
                escape,
                outcome.deep_view(),
            ),
            final(self).wf(),
    {
        if outcome.completed > length - sent {
            return self.fail(
                Error::Protocol("transport reported more TX bytes than submitted".to_owned()),
            );
        }
        self.accepted = count(self.accepted, outcome.completed);
        let next = self.writing(sent + outcome.completed, length, escape);
        match outcome.failure {
            Some(failure) => {
                match map_transfer_failure(failure) {
                    Some(error) => self.fail(error),
                    None => {
                        if outcome.completed == 0 {
                            self.state = TxState::Pausing { sent, length, escape };
                        } else {
                            self.state = next;
                        }
                        None
                    },
                }
            },
            None => {
                if outcome.completed == 0 {
                    return self.fail(
                        Error::Protocol(
                            "transport completed a zero-length TX without status".to_owned(),
                        ),
                    );
                }
                self.state = next;
                None
            },
        }
    }

    /// Takes what the thread hands back, and gives what the coordinator is to be told.
    pub fn advance(&mut self, event: TxEvent<'_>) -> (report: Option<WorkerEvent>)
        requires
            old(self).wf(),
        ensures
            final(self).wf(),
            (*final(self), report.deep_view()) == tx_next(*old(self), event.deep_view()),
    {
        match (self.state, event) {
            (TxState::Ready, TxEvent::CancelFlag(flag)) => {
                if flag {
                    self.state = TxState::Stopped;
                    Some(WorkerEvent::TxDrained(StopReason::Cancelled))
                } else {
                    self.state = TxState::Reading;
                    None
                }
            },
            (TxState::Reading, TxEvent::Input(bytes)) => {
                self.state = self.after_input(bytes);
                None
            },
            (TxState::Reading, TxEvent::InputInterrupted) => {
                self.state = TxState::Ready;
                None
            },
            (TxState::Reading, TxEvent::InputFailed(message)) => self.fail(
                Error::Access(joined("stdin read failed: ", message.as_str())),
            ),
            (TxState::Echoing { length, escape }, TxEvent::Echoed) => {
                self.state = self.writing(0, length, escape);
                None
            },
            (TxState::Echoing { .. }, TxEvent::EchoFailed(message)) => self.fail(
                Error::Access(joined("local echo write failed: ", message.as_str())),
            ),
            (TxState::Checking { sent, length, escape }, TxEvent::CancelFlag(flag)) => {
                if flag {
                    self.state = self.after_chunk(escape);
                } else {
                    self.state = TxState::Writing { sent, length, escape };
                }
                None
            },
            (TxState::Writing { sent, length, escape }, TxEvent::Written(outcome)) => {
                self.after_write(sent, length, escape, outcome)
            },
            (TxState::Pausing { sent, length, escape }, TxEvent::Paused) => {
                self.state = TxState::Checking { sent, length, escape };
                None
            },
            (TxState::Submitting { escape }, TxEvent::Submitted) => {
                self.state = Self::after_submit(escape);
                None
            },
            (TxState::Draining { reason }, TxEvent::Drained) => {
                self.completed = self.accepted;
                self.state = TxState::Stopped;
                Some(WorkerEvent::TxDrained(reason))
            },
            (TxState::Draining { .. }, TxEvent::DrainFailed(error)) => self.fail(error),
            _ => None,
        }
    }
}

/// Where the receive worker stands.
#[derive(Clone, Copy, Debug, PartialEq, Eq, Structural)]
pub enum RxState {
    /// About to look at the cancellation flag.
    Ready,
    /// Waiting for the transport.
    Reading,
    /// Waiting for the output to take `length` received bytes.
    Delivering { length: usize },
    /// Waiting out a transfer that moved nothing.
    Pausing,
    /// Done.
    Stopped,
}

/// What the thread of the receive worker does next.
#[derive(Clone, Copy, Debug, PartialEq, Eq, Structural)]
pub enum RxAction {
    /// Look at the cancellation flag.
    CheckCancelled,
    /// Read from the transport into the buffer.
    Read,
    /// Write the first `length` bytes of the buffer to the output, and flush it.
    Deliver { length: usize },
    /// Sleep for the back-off time.
    Pause,
    /// Leave.
    Stop,
}

/// What the thread of the receive worker hands back.
#[derive(Debug)]
pub enum RxEvent {
    /// The cancellation flag as it was seen.
    CancelFlag(bool),
    /// The transport's answer to a read.
    Received(TransferOutcome),
    /// The output took the bytes.
    Delivered,
    /// The output failed.
    DeliveryFailed(String),
    /// The pause is over.
    Paused,
}

/// A receive event over plain values.
pub enum RxEventView {
    CancelFlag(bool),
    Received(OutcomeView),
    Delivered,
    DeliveryFailed(Seq<char>),
    Paused,
}

impl DeepView for RxEvent {
    type V = RxEventView;

    open spec fn deep_view(&self) -> RxEventView {
        match self {
            RxEvent::CancelFlag(flag) => RxEventView::CancelFlag(*flag),
            RxEvent::Received(outcome) => RxEventView::Received(outcome.deep_view()),
            RxEvent::Delivered => RxEventView::Delivered,
            RxEvent::DeliveryFailed(message) => RxEventView::DeliveryFailed(message@),
            RxEvent::Paused => RxEventView::Paused,
        }
    }
}

/// What the coordinator is told after a receive step: that bytes were delivered, and then
/// that the worker met an error.
#[derive(Debug)]
pub struct RxReport {
    pub activity: bool,
    pub failure: Option<Error>,
}

/// A receive report with its error taken by category and diagnostic.
pub struct RxReportView {
    pub activity: bool,
    pub failure: Option<ErrorView>,
}

impl DeepView for RxReport {
    type V = RxReportView;

    open spec fn deep_view(&self) -> RxReportView {
        RxReportView { activity: self.activity, failure: self.failure.deep_view() }
    }
}

/// The receive worker: it reads from the transport and delivers to the output.
#[derive(Debug)]
pub struct RxWorker {
    /// The size of the receive buffer.
    pub capacity: usize,
    pub state: RxState,
    /// The error that follows the bytes being delivered.
    pub pending: Option<Error>,
    /// Bytes that were delivered.
    pub received: u64,
}

/// A receive worker over plain values.
pub struct RxWorkerView {
    pub capacity: usize,
    pub state: RxState,
    pub pending: Option<ErrorView>,
    pub received: u64,
}

impl DeepView for RxWorker {
    type V = RxWorkerView;

    open spec fn deep_view(&self) -> RxWorkerView {
        RxWorkerView {
            capacity: self.capacity,
            state: self.state,
            pending: self.pending.deep_view(),
            received: self.received,
        }
    }
}

/// What the thread does in each state.
pub open spec fn rx_action(state: RxState) -> RxAction {
    match state {
        RxState::Ready => RxAction::CheckCancelled,
        RxState::Reading => RxAction::Read,
        RxState::Delivering { length } => RxAction::Deliver { length },
        RxState::Pausing => RxAction::Pause,
        RxState::Stopped => RxAction::Stop,
    }
}

/// A worker in another state, with nothing to tell.
pub open spec fn rx_at(worker: RxWorkerView, state: RxState) -> (RxWorkerView, RxReportView) {
    (RxWorkerView { state, ..worker }, RxReportView { activity: false, failure: None })
}

/// A worker that leaves with an error.
pub open spec fn rx_failed(worker: RxWorkerView, error: ErrorView) -> (
    RxWorkerView,
    RxReportView,
) {
    (
        RxWorkerView { state: RxState::Stopped, ..worker },
        RxReportView { activity: false, failure: Some(error) },
    )
}

/// What follows the transport's answer to a read: completed bytes are delivered before the
/// failure is handled.
pub open spec fn rx_after_read(worker: RxWorkerView, outcome: OutcomeView) -> (
    RxWorkerView,
    RxReportView,
) {
    let error = match outcome.failure {
        Some(failure) => transfer_error(failure),
        None => None,
    };
    if outcome.completed > worker.capacity {
        rx_failed(
            worker,
            error_view(
                Category::Protocol,
                "transport reported more RX bytes than buffer capacity"@,
            ),
        )
    } else if outcome.completed != 0 {
        rx_at(
            RxWorkerView { pending: error, ..worker },
            RxState::Delivering { length: outcome.completed },
        )
    } else if outcome.failure is None {
        rx_failed(
            worker,
            error_view(Category::Protocol, "transport completed a zero-length RX without status"@),
        )
    } else {
        match error {
            Some(error) => rx_failed(worker, error),
            None => rx_at(worker, RxState::Pausing),
        }
    }
}

/// One step of the receive worker. An event that the worker does not wait for changes
/// nothing.
pub open spec fn rx_next(worker: RxWorkerView, event: RxEventView) -> (
    RxWorkerView,
    RxReportView,
) {
    match (worker.state, event) {
        (RxState::Ready, RxEventView::CancelFlag(flag)) => rx_at(
            worker,
            if flag {
                RxState::Stopped
            } else {
                RxState::Reading
            },
        ),
        (RxState::Reading, RxEventView::Received(outcome)) => rx_after_read(worker, outcome),
        (RxState::Delivering { length }, RxEventView::Delivered) => {
            let state = if worker.pending is Some {
                RxState::Stopped
            } else {
                RxState::Ready
            };
            (
                RxWorkerView {
                    state,
                    pending: None,
                    received: counted(worker.received + length),
                    ..worker
                },
                RxReportView { activity: true, failure: worker.pending },
            )
        },
        (RxState::Delivering { .. }, RxEventView::DeliveryFailed(message)) => rx_failed(
            worker,
            error_view(Category::Access, "stdout write failed: "@ + message),
        ),
        (RxState::Pausing, RxEventView::Paused) => rx_at(worker, RxState::Ready),
        _ => (worker, RxReportView { activity: false, failure: None }),
    }
}

impl RxWorker {
    /// A worker that has done nothing, with a buffer of `capacity` bytes.
    pub fn new(capacity: usize) -> (worker: Self)
        ensures
            worker.deep_view() == (RxWorkerView {
                capacity,
                state: RxState::Ready,
                pending: None,
                received: 0,
            }),
    {
        RxWorker { capacity, state: RxState::Ready, pending: None, received: 0 }
    }

    /// What the thread does next.
    pub fn action(&self) -> (action: RxAction)
        ensures
            action == rx_action(self.deep_view().state),
    {
        match self.state {
            RxState::Ready => RxAction::CheckCancelled,
            RxState::Reading => RxAction::Read,
            RxState::Delivering { length } => RxAction::Deliver { length },
            RxState::Pausing => RxAction::Pause,
            RxState::Stopped => RxAction::Stop,
        }
    }

    /// Leaves with an error.
    fn fail(&mut self, error: Error) -> (report: RxReport)
        ensures
            (final(self).deep_view(), report.deep_view()) == rx_failed(
                old(self).deep_view(),
                error.deep_view(),
            ),
    {
        self.state = RxState::Stopped;
        RxReport { activity: false, failure: Some(error) }
    }

    /// Takes the transport's answer to a read.
    fn after_read(&mut self, outcome: TransferOutcome) -> (report: RxReport)
        ensures
            (final(self).deep_view(), report.deep_view()) == rx_after_read(
                old(self).deep_view(),
                outcome.deep_view(),
            ),
    {
        if outcome.completed > self.capacity {
            return self.fail(
                Error::Protocol(
                    "transport reported more RX bytes than buffer capacity".to_owned(),
                ),
            );
        }
        let mut status_free = false;
        let error = match outcome.failure {
            Some(failure) => map_transfer_failure(failure),
            None => {
                status_free = true;
                None
            },
        };
        if outcome.completed != 0 {
            self.pending = error;
            self.state = RxState::Delivering { length: outcome.completed };
            return RxReport { activity: false, failure: None };
        }
        if status_free {
            return self.fail(
                Error::Protocol("transport completed a zero-length RX without status".to_owned()),
            );
        }
        match error {
            Some(error) => self.fail(error),
            None => {
                self.state = RxState::Pausing;
                RxReport { activity: false, failure: None }
            },
        }
    }

    /// Takes what the thread hands back, and gives what the coordinator is to be told.
    pub fn advance(&mut self, event: RxEvent) -> (report: RxReport)
        ensures
            (final(self).deep_view(), report.deep_view()) == rx_next(
                old(self).deep_view(),
                event.deep_view(),
            ),
    {
        match (self.state, event) {
            (RxState::Ready, RxEvent::CancelFlag(flag)) => {
                self.state = if flag {
                    RxState::Stopped
                } else {
                    RxState::Reading
                };
                RxReport { activity: false, failure: None }
            },
            (RxState::Reading, RxEvent::Received(outcome)) => self.after_read(outcome),
            (RxState::Delivering { length }, RxEvent::Delivered) => {
                self.received = count(self.received, length);
                let failure = self.pending.take();
                self.state = if failure.is_some() {
                    RxState::Stopped
                } else {
                    RxState::Ready
                };
                RxReport { activity: true, failure }
            },
            (RxState::Delivering { .. }, RxEvent::DeliveryFailed(message)) => self.fail(
                Error::Access(joined("stdout write failed: ", message.as_str())),
            ),
            (RxState::Pausing, RxEvent::Paused) => {
                self.state = RxState::Ready;
                RxReport { activity: false, failure: None }
            },
            _ => RxReport { activity: false, failure: None },
        }
    }
}

}
