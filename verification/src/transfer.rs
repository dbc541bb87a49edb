//! What I/O results mean for transfers and drains.

use vstd::prelude::*;
use vstd::string::*;

use crate::error::{error_view, Category, Error, ErrorView};
use crate::span::Span;
use crate::text::{decimal, joined, push_decimal};
use crate::uart::transport::{
    completed_outcome, failed_outcome, failure_io_error, FailureView, IoError, IoErrorKind,
    IoErrorView, OutcomeView, TransferFailureKind, TransferOutcome,
};

verus! {

broadcast use vstd::string::group_string_axioms;

/// What an I/O error of a device means for a transfer.
pub open spec fn device_failure_kind(kind: IoErrorKind) -> TransferFailureKind {
    match kind {
        IoErrorKind::Interrupted => TransferFailureKind::Interrupted,
        IoErrorKind::WouldBlock => TransferFailureKind::WouldBlock,
        IoErrorKind::TimedOut => TransferFailureKind::TimedOut,
        IoErrorKind::PermissionDenied => TransferFailureKind::Access,
        IoErrorKind::BrokenPipe
        | IoErrorKind::NotConnected
        | IoErrorKind::UnexpectedEof => TransferFailureKind::Disconnected,
        _ => TransferFailureKind::Protocol,
    }
}

/// The outcome of an I/O operation of a device.
pub open spec fn device_outcome(result: Result<usize, IoErrorView>) -> OutcomeView {
    match result {
        Ok(completed) => completed_outcome(completed),
        Err(error) => failed_outcome(0, device_failure_kind(error.kind), error.message),
    }
}

/// An I/O result taken by its views.
pub open spec fn io_view(result: Result<usize, IoError>) -> Result<usize, IoErrorView> {
    match result {
        Ok(completed) => Ok(completed),
        Err(error) => Err(error.deep_view()),
    }
}

/// What an I/O error means for a transfer.
pub fn map_io_error(error: IoError) -> (outcome: TransferOutcome)
    ensures
        outcome.deep_view() == device_outcome(Err(error.deep_view())),
{
    let kind = match error.kind() {
        IoErrorKind::Interrupted => TransferFailureKind::Interrupted,
        IoErrorKind::WouldBlock => TransferFailureKind::WouldBlock,
        IoErrorKind::TimedOut => TransferFailureKind::TimedOut,
        IoErrorKind::PermissionDenied => TransferFailureKind::Access,
        IoErrorKind::BrokenPipe
        | IoErrorKind::NotConnected
        | IoErrorKind::UnexpectedEof => TransferFailureKind::Disconnected,
        _ => TransferFailureKind::Protocol,
    };
    TransferOutcome::failed(0, kind, error.message())
}

/// The outcome of an I/O operation.
pub fn io_outcome(result: Result<usize, IoError>) -> (outcome: TransferOutcome)
    ensures
        outcome.deep_view() == device_outcome(io_view(result)),
{
    match result {
        Ok(completed) => TransferOutcome::complete(completed),
        Err(error) => map_io_error(error),
    }
}

/// The outcome of a transfer on a transport that was cancelled.
pub open spec fn cancelled_view() -> OutcomeView {
    failed_outcome(0, TransferFailureKind::TimedOut, "cancelled"@)
}

/// The outcome of a transfer on a transport that was cancelled.
pub fn cancelled_outcome() -> (outcome: TransferOutcome)
    ensures
        outcome.deep_view() == cancelled_view(),
{
    TransferOutcome::failed(0, TransferFailureKind::TimedOut, "cancelled")
}

/// The outcome of a transfer on a transport that was closed.
pub open spec fn closed_view() -> OutcomeView {
    failed_outcome(0, TransferFailureKind::Disconnected, "closed"@)
}

/// The outcome of a transfer on a transport that was closed.
pub fn closed_outcome() -> (outcome: TransferOutcome)
    ensures
        outcome.deep_view() == closed_view(),
{
    TransferOutcome::failed(0, TransferFailureKind::Disconnected, "closed")
}

/// A text, a number of milliseconds, and their unit.
pub open spec fn with_millis(text: Seq<char>, timeout: nat) -> Seq<char> {
    text + decimal(timeout / 1_000_000) + " ms"@
}

/// `text`, then the milliseconds of `timeout` and their unit.
pub fn text_with_millis(text: &str, timeout: Span) -> (out: String)
    ensures
        out@ == with_millis(text@, timeout@),
{
    let mut out = text.to_owned();
    push_decimal(&mut out, timeout.as_millis());
    out.append(" ms");
    out
}

/// The error for a flush that failed: a timeout, or a failure of the transport called `name`.
pub open spec fn flush_error(name: Seq<char>, timeout: nat, error: IoErrorView) -> ErrorView {
    if error.kind == IoErrorKind::TimedOut {
        error_view(Category::Timeout, with_millis(name + " drain exceeded "@, timeout))
    } else {
        error_view(Category::Access, name + " drain failed: "@ + error.message)
    }
}

/// The error for a flush that failed on the transport called `name`.
pub fn flush_failed(name: &str, timeout: Span, error: &IoError) -> (failure: Error)
    ensures
        failure.deep_view() == flush_error(name@, timeout@, error.deep_view()),
{
    if error.kind() == IoErrorKind::TimedOut {
        let text = joined(name, " drain exceeded ");
        Error::Timeout(text_with_millis(&text, timeout))
    } else {
        let mut message = joined(name, " drain failed: ");
        message.append(error.message());
        Error::Access(message)
    }
}

/// What a look at a draining transmitter calls for.
#[derive(Debug)]
pub enum DrainProgress {
    /// The transmitter is empty.
    Done,
    /// Another look after a pause.
    Wait,
    /// The transmitter is overdue.
    Overdue(Error),
}

/// What a look at a draining transmitter calls for, by views.
pub enum DrainProgressView {
    Done,
    Wait,
    Overdue(ErrorView),
}

impl DeepView for DrainProgress {
    type V = DrainProgressView;

    open spec fn deep_view(&self) -> DrainProgressView {
        match self {
            DrainProgress::Done => DrainProgressView::Done,
            DrainProgress::Wait => DrainProgressView::Wait,
            DrainProgress::Overdue(error) => DrainProgressView::Overdue(error.deep_view()),
        }
    }
}

/// What a look at a draining transmitter calls for: an empty one is done even when late, and
/// another is waited for until the deadline. `what` is what did not drain.
pub open spec fn drain_progress(
    empty: bool,
    overdue: bool,
    what: Seq<char>,
    timeout: nat,
) -> DrainProgressView {
    if empty {
        DrainProgressView::Done
    } else if overdue {
        DrainProgressView::Overdue(
            error_view(Category::Timeout, with_millis(what + " did not drain within "@, timeout)),
        )
    } else {
        DrainProgressView::Wait
    }
}

/// Decides what a look at a draining transmitter calls for.
pub fn drain_step(empty: bool, overdue: bool, what: &str, timeout: Span) -> (progress:
    DrainProgress)
    ensures
        progress.deep_view() == drain_progress(empty, overdue, what@, timeout@),
{
    if empty {
        DrainProgress::Done
    } else if overdue {
        let text = joined(what, " did not drain within ");
        DrainProgress::Overdue(Error::Timeout(text_with_millis(&text, timeout)))
    } else {
        DrainProgress::Wait
    }
}

/// A drain ends, one way or the other, by its deadline: it is done exactly when the transmitter
/// is empty, however late, it is waited for only before the deadline, and a transmitter that is
/// not empty by then is a timeout.
pub proof fn drains_end(empty: bool, overdue: bool, what: Seq<char>, timeout: nat)
    ensures
        drain_progress(empty, overdue, what, timeout) is Done <==> empty,
        drain_progress(empty, overdue, what, timeout) is Wait <==> !empty && !overdue,
        drain_progress(empty, overdue, what, timeout) matches DrainProgressView::Overdue(error)
            ==> error.category == Category::Timeout && what.is_prefix_of(error.message),
{
    if !empty && overdue {
        let message = with_millis(what + " did not drain within "@, timeout);
        assert(message.take(what.len() as int) =~= what);
    }
}

/// What a device reports keeps its meaning on the way through a port: a failure that is turned
/// into an I/O error is turned back into the same failure.
pub proof fn failures_survive_the_port(failure: FailureView)
    ensures
        device_failure_kind(failure_io_error(failure).kind) == failure.kind,
        failure_io_error(failure).message == failure.message,
        device_outcome(Err(failure_io_error(failure))).failure == Some(failure),
{
}

/// An I/O operation of a device moved what it says, and one that failed moved nothing and keeps
/// its diagnostic. An interruption, a full queue and a timeout may pass; a lost connection and a
/// refused permission are told apart; everything else is a protocol failure.
pub proof fn device_results_are_kept(completed: usize, error: IoErrorView)
    ensures
        device_outcome(Ok(completed)).completed == completed,
        device_outcome(Ok(completed)).failure is None,
        device_outcome(Err(error)).completed == 0,
        device_outcome(Err(error)).failure matches Some(failure) && {
            &&& failure.message == error.message
            &&& failure.kind is Interrupted <==> error.kind is Interrupted
            &&& failure.kind is WouldBlock <==> error.kind is WouldBlock
            &&& failure.kind is TimedOut <==> error.kind is TimedOut
            &&& failure.kind is Access <==> error.kind is PermissionDenied
            &&& failure.kind is Disconnected <==> error.kind is BrokenPipe || error.kind
                is NotConnected || error.kind is UnexpectedEof
        },
{
}

}
