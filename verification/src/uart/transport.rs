//! Ports, transports, and the accounting of partial transfers.

use std::sync::Arc;

use vstd::prelude::*;
use vstd::string::*;

use crate::error::Error;
use crate::span::Span;

verus! {

/// Provider identity and realized UART configuration.
#[derive(Clone, Debug)]
pub struct Metadata {
    /// Stable provider backend name.
    pub backend: &'static str,
    /// USB serial number, when one is available.
    pub serial: Option<String>,
    /// Attachment or device path, when one is available.
    pub path: Option<String>,
    /// Requested line rate in bits per second.
    pub requested_baud: u32,
    /// Realized line rate in bits per second.
    pub actual_baud: u32,
    /// Lowest supported line rate.
    pub minimum_baud: u32,
    /// Highest supported line rate.
    pub maximum_baud: u32,
}

/// Selected device and realized line configuration, by views.
#[verifier::ext_equal]
pub struct MetadataView {
    pub backend: Seq<char>,
    pub serial: Option<Seq<char>>,
    pub path: Option<Seq<char>>,
    pub requested_baud: u32,
    pub actual_baud: u32,
    pub minimum_baud: u32,
    pub maximum_baud: u32,
}

impl DeepView for Metadata {
    type V = MetadataView;

    open spec fn deep_view(&self) -> MetadataView {
        MetadataView {
            backend: self.backend@,
            serial: self.serial.deep_view(),
            path: self.path.deep_view(),
            requested_baud: self.requested_baud,
            actual_baud: self.actual_baud,
            minimum_baud: self.minimum_baud,
            maximum_baud: self.maximum_baud,
        }
    }
}

/// Hardware receive counters accumulated during an open port's lifetime.
#[derive(Clone, Copy, Debug, PartialEq, Eq, Structural)]
pub struct Counters {
    /// Receive framing, parity, or break errors.
    pub rx_errors: u64,
    /// Receive overflow errors.
    pub rx_overflow: u64,
}

impl Default for Counters {
    /// Counters that have counted nothing.
    fn default() -> (counters: Counters)
        ensures
            counters == (Counters { rx_errors: 0, rx_overflow: 0 }),
    {
        Counters { rx_errors: 0, rx_overflow: 0 }
    }
}

/// Transport failure category used by partial transfer completions.
#[derive(Clone, Copy, Debug, PartialEq, Eq, Structural)]
pub enum TransferFailureKind {
    /// The operation was interrupted and may be retried.
    Interrupted,
    /// The operation would block and may be retried.
    WouldBlock,
    /// The operation timed out and may be retried by a session.
    TimedOut,
    /// Device or driver access failed.
    Access,
    /// The transport returned invalid protocol data.
    Protocol,
    /// The device disconnected.
    Disconnected,
}

/// Failure status accompanying a transfer completion.
#[derive(Clone, Debug)]
pub struct TransferFailure {
    /// Stable failure category.
    pub kind: TransferFailureKind,
    /// Provider-specific diagnostic.
    pub message: String,
}

/// A failure as its category and the text of its diagnostic.
#[verifier::ext_equal]
pub struct FailureView {
    pub kind: TransferFailureKind,
    pub message: Seq<char>,
}

impl DeepView for TransferFailure {
    type V = FailureView;

    open spec fn deep_view(&self) -> FailureView {
        FailureView { kind: self.kind, message: self.message@ }
    }
}

/// One transfer completion.
///
/// `completed` bytes are valid and must be accounted before `failure` is handled.
#[derive(Clone, Debug)]
pub struct TransferOutcome {
    /// Number of bytes completed before any failure.
    pub completed: usize,
    /// Optional status reported after the completed bytes.
    pub failure: Option<TransferFailure>,
}

/// A completion as its byte count and its optional failure.
#[verifier::ext_equal]
pub struct OutcomeView {
    pub completed: usize,
    pub failure: Option<FailureView>,
}

impl DeepView for TransferOutcome {
    type V = OutcomeView;

    open spec fn deep_view(&self) -> OutcomeView {
        OutcomeView { completed: self.completed, failure: self.failure.deep_view() }
    }
}

/// A completion of `completed` bytes without a failure.
pub open spec fn completed_outcome(completed: usize) -> OutcomeView {
    OutcomeView { completed, failure: None }
}

/// A completion of `completed` bytes followed by a failure.
pub open spec fn failed_outcome(
    completed: usize,
    kind: TransferFailureKind,
    message: Seq<char>,
) -> OutcomeView {
    OutcomeView { completed, failure: Some(FailureView { kind, message }) }
}

impl TransferOutcome {
    /// Construct a successful completion.
    #[must_use]
    pub fn complete(completed: usize) -> (outcome: Self)
        ensures
            outcome.deep_view() == completed_outcome(completed),
    {
        TransferOutcome { completed, failure: None }
    }

    /// Construct a completion followed by a failure.
    #[must_use]
    pub fn failed(completed: usize, kind: TransferFailureKind, message: &str) -> (outcome: Self)
        ensures
            outcome.deep_view() == failed_outcome(completed, kind, message@),
    {
        TransferOutcome {
            completed,
            failure: Some(TransferFailure { kind, message: message.to_owned() }),
        }
    }
}

/// Synchronous UART transport extension point.
///
/// Implementations must make [`Transport::cancel`] unblock in-flight I/O. When a
/// transfer both completes bytes and reports a failure, callers account the
/// completed bytes before handling the failure.
pub trait Transport: Send + Sync + 'static {
    /// Describe the selected device and realized configuration.
    fn metadata(&self) -> &Metadata;

    /// Whether a read of this transport can turn the buffer `before` into `after` and report
    /// `outcome`. It is for each transport to say; one that does not say promises nothing.
    open spec fn reads(&self, before: Seq<u8>, after: Seq<u8>, outcome: TransferOutcome) -> bool {
        true
    }

    /// Receive bytes from the device.
    fn read(&self, buffer: &mut [u8]) -> (outcome: TransferOutcome)
        ensures
            self.reads(old(buffer)@, final(buffer)@, outcome),
    ;

    /// Queue bytes for transmission.
    fn write(&self, data: &[u8]) -> TransferOutcome;

    /// Submit transport-buffered TX data without waiting for physical completion.
    fn submit_tx(&self) {
    }

    /// Wait until accepted TX data is physically observable as complete, for at most
    /// `timeout`.
    fn drain(&self, timeout: Span) -> Result<(), Error>;

    /// Cancel in-flight transport operations.
    fn cancel(&self);

    /// Return current hardware receive counters.
    fn counters(&self) -> Counters;
}

/// The standard I/O error kinds that ports report and transports meet.
#[derive(Clone, Copy, Debug, PartialEq, Eq, Structural)]
pub enum IoErrorKind {
    Interrupted,
    WouldBlock,
    TimedOut,
    PermissionDenied,
    BrokenPipe,
    NotConnected,
    UnexpectedEof,
    InvalidData,
    WriteZero,
    Other,
}

/// An I/O error: its kind and its diagnostic.
#[derive(Clone, Debug)]
pub struct IoError {
    kind: IoErrorKind,
    message: String,
}

/// An I/O error as its kind and the text of its diagnostic.
#[verifier::ext_equal]
pub struct IoErrorView {
    pub kind: IoErrorKind,
    pub message: Seq<char>,
}

impl DeepView for IoError {
    type V = IoErrorView;

    closed spec fn deep_view(&self) -> IoErrorView {
        IoErrorView { kind: self.kind, message: self.message@ }
    }
}

impl IoError {
    /// An I/O error of the given kind.
    pub fn new(kind: IoErrorKind, message: String) -> (error: Self)
        ensures
            error.deep_view() == (IoErrorView { kind, message: message@ }),
    {
        IoError { kind, message }
    }

    /// The kind of this error.
    pub fn kind(&self) -> (kind: IoErrorKind)
        ensures
            kind == self.deep_view().kind,
    {
        self.kind
    }

    /// The diagnostic text of this error.
    pub fn message(&self) -> (message: &str)
        ensures
            message@ == self.deep_view().message,
    {
        self.message.as_str()
    }
}

/// The I/O error kind that a transfer failure becomes at a port.
pub open spec fn failure_io_kind(kind: TransferFailureKind) -> IoErrorKind {
    match kind {
        TransferFailureKind::Interrupted => IoErrorKind::Interrupted,
        TransferFailureKind::WouldBlock => IoErrorKind::WouldBlock,
        TransferFailureKind::TimedOut => IoErrorKind::TimedOut,
        TransferFailureKind::Access => IoErrorKind::PermissionDenied,
        TransferFailureKind::Protocol => IoErrorKind::InvalidData,
        TransferFailureKind::Disconnected => IoErrorKind::NotConnected,
    }
}

/// The I/O error that a transfer failure becomes at a port.
pub open spec fn failure_io_error(failure: FailureView) -> IoErrorView {
    IoErrorView { kind: failure_io_kind(failure.kind), message: failure.message }
}

/// Turns a transfer failure into the I/O error that a port reports.
pub fn io_failure(failure: TransferFailure) -> (error: IoError)
    ensures
        error.deep_view() == failure_io_error(failure.deep_view()),
{
    let kind = match failure.kind {
        TransferFailureKind::Interrupted => IoErrorKind::Interrupted,
        TransferFailureKind::WouldBlock => IoErrorKind::WouldBlock,
        TransferFailureKind::TimedOut => IoErrorKind::TimedOut,
        TransferFailureKind::Access => IoErrorKind::PermissionDenied,
        TransferFailureKind::Protocol => IoErrorKind::InvalidData,
        TransferFailureKind::Disconnected => IoErrorKind::NotConnected,
    };
    IoError { kind, message: failure.message }
}

/// What a port read of `capacity` bytes gives when the transport reports `outcome`:
/// completed bytes win over a failure, and an overlong completion is invalid.
pub open spec fn port_read_result(outcome: OutcomeView, capacity: nat) -> Result<
    usize,
    IoErrorView,
> {
    if outcome.completed > capacity {
        Err(
            IoErrorView {
                kind: IoErrorKind::InvalidData,
                message: "transport reported more RX bytes than buffer capacity"@,
            },
        )
    } else if outcome.completed != 0 {
        Ok(outcome.completed)
    } else {
        match outcome.failure {
            Some(failure) => Err(failure_io_error(failure)),
            None => Ok(0),
        }
    }
}

/// What a port write of `length` bytes gives when the transport reports `outcome`.
/// Unlike a read, a completion of nothing without a failure is an error.
pub open spec fn port_write_result(outcome: OutcomeView, length: nat) -> Result<
    usize,
    IoErrorView,
> {
    if outcome.completed > length {
        Err(
            IoErrorView {
                kind: IoErrorKind::InvalidData,
                message: "transport reported more TX bytes than submitted"@,
            },
        )
    } else if outcome.completed != 0 {
        Ok(outcome.completed)
    } else {
        match outcome.failure {
            Some(failure) => Err(failure_io_error(failure)),
            None => Err(
                IoErrorView {
                    kind: IoErrorKind::WriteZero,
                    message: "transport completed a zero-length TX without status"@,
                },
            ),
        }
    }
}

/// A result whose I/O error is taken by its kind and diagnostic.
pub open spec fn io_result_view<T>(result: Result<T, IoError>) -> Result<T, IoErrorView> {
    match result {
        Ok(value) => Ok(value),
        Err(error) => Err(error.deep_view()),
    }
}

/// Turns a receive completion into the result of a port read.
pub fn read_result(outcome: TransferOutcome, capacity: usize) -> (result: Result<usize, IoError>)
    ensures
        io_result_view(result) == port_read_result(outcome.deep_view(), capacity as nat),
{
    if outcome.completed > capacity {
        return Err(
            IoError::new(
                IoErrorKind::InvalidData,
                "transport reported more RX bytes than buffer capacity".to_owned(),
            ),
        );
    }
    if outcome.completed != 0 {
        return Ok(outcome.completed);
    }
    match outcome.failure {
        Some(failure) => Err(io_failure(failure)),
        None => Ok(0),
    }
}

/// Turns a transmit completion into the result of a port write.
pub fn write_result(outcome: TransferOutcome, length: usize) -> (result: Result<usize, IoError>)
    ensures
        io_result_view(result) == port_write_result(outcome.deep_view(), length as nat),
{
    if outcome.completed > length {
        return Err(
            IoError::new(
                IoErrorKind::InvalidData,
                "transport reported more TX bytes than submitted".to_owned(),
            ),
        );
    }
    if outcome.completed != 0 {
        return Ok(outcome.completed);
    }
    match outcome.failure {
        Some(failure) => Err(io_failure(failure)),
        None => Err(
            IoError::new(
                IoErrorKind::WriteZero,
                "transport completed a zero-length TX without status".to_owned(),
            ),
        ),
    }
}

/// A reusable UART port backed by a provider or custom transport.
pub struct Port<T: Transport> {
    transport: Arc<T>,
}

impl<T: Transport> Port<T> {
    /// The transport behind this port.
    pub closed spec fn backing(&self) -> T {
        *self.transport
    }

    /// Wrap a custom synchronous UART transport.
    pub fn new(transport: T) -> (port: Self)
        ensures
            port.backing() == transport,
    {
        Port { transport: Arc::new(transport) }
    }

    /// Share the transport behind this port.
    pub fn into_transport(self) -> (transport: Arc<T>)
        ensures
            *transport == self.backing(),
    {
        self.transport
    }

    /// Describe the selected device and realized configuration.
    #[must_use]
    pub fn metadata(&self) -> (metadata: &Metadata)
        ensures
            call_ensures(T::metadata, (&self.backing(),), metadata),
    {
        self.transport.metadata()
    }

    /// Return current hardware receive counters.
    #[must_use]
    pub fn counters(&self) -> (counters: Counters)
        ensures
            call_ensures(T::counters, (&self.backing(),), counters),
    {
        self.transport.counters()
    }

    /// Wait for physical transmission completion.
    pub fn drain(&self, timeout: Span) -> (result: Result<(), Error>)
        ensures
            call_ensures(T::drain, (&self.backing(), timeout), result),
    {
        self.transport.drain(timeout)
    }

    /// Cancel in-flight operations.
    pub fn cancel(&self)
        ensures
            call_ensures(T::cancel, (&self.backing(),), ()),
    {
        self.transport.cancel()
    }

    /// Receive into `buffer` once, by one read of the transport.
    pub fn read(&mut self, buffer: &mut [u8]) -> (result: Result<usize, IoError>)
        ensures
            final(self).backing() == old(self).backing(),
            exists|outcome: TransferOutcome| #[trigger]
                old(self).backing().reads(old(buffer)@, final(buffer)@, outcome)
                    && io_result_view(result) == port_read_result(
                    outcome.deep_view(),
                    old(buffer)@.len(),
                ),
    {
        let capacity = buffer.len();
        let outcome = self.transport.read(buffer);
        assert(self.backing().reads(old(buffer)@, buffer@, outcome));
        read_result(outcome, capacity)
    }

    /// Queue `data` for transmission once.
    pub fn write(&mut self, data: &[u8]) -> (result: Result<usize, IoError>)
        ensures
            final(self).backing() == old(self).backing(),
            exists|outcome: TransferOutcome| #[trigger]
                call_ensures(T::write, (&old(self).backing(), data), outcome) && io_result_view(
                    result,
                ) == port_write_result(outcome.deep_view(), data@.len()),
    {
        let outcome = self.transport.write(data);
        write_result(outcome, data.len())
    }

    /// Submit buffered transmit data without waiting for physical completion.
    pub fn flush(&mut self) -> (result: Result<(), IoError>)
        ensures
            result is Ok,
            final(self).backing() == old(self).backing(),
            call_ensures(T::submit_tx, (&old(self).backing(),), ()),
    {
        self.transport.submit_tx();
        Ok(())
    }
}

impl<T: Transport> Clone for Port<T> {
    /// Another handle to the same transport.
    fn clone(&self) -> (port: Self)
        ensures
            port.backing() == self.backing(),
    {
        Port { transport: Arc::clone(&self.transport) }
    }
}

/// A port tells what moved: bytes that did come before a failure that came with them, neither
/// more than there was room for nor, of a write, nothing at all without a reason; and what the
/// transport gives as its reason is passed on with its diagnostic.
pub proof fn ports_report_what_moved(outcome: OutcomeView, room: nat)
    ensures
        0 < outcome.completed <= room ==> port_read_result(outcome, room) == Ok::<
            usize,
            IoErrorView,
        >(outcome.completed) && port_write_result(outcome, room) == Ok::<usize, IoErrorView>(
            outcome.completed,
        ),
        outcome.completed > room ==> {
            &&& port_read_result(outcome, room) matches Err(error) && error.kind is InvalidData
            &&& port_write_result(outcome, room) matches Err(error) && error.kind is InvalidData
        },
        outcome.completed == 0 ==> {
            &&& outcome.failure is None ==> port_read_result(outcome, room) == Ok::<
                usize,
                IoErrorView,
            >(0)
            &&& outcome.failure is None ==> (port_write_result(outcome, room) matches Err(error)
                && error.kind is WriteZero)
            &&& outcome.failure matches Some(failure) ==> {
                &&& port_read_result(outcome, room) matches Err(error) && error.message
                    == failure.message
                &&& port_write_result(outcome, room) == port_read_result(outcome, room)
            }
        },
{
}

/// Different failures stay different at a port.
pub proof fn failures_stay_distinct(left: TransferFailureKind, right: TransferFailureKind)
    ensures
        failure_io_kind(left) == failure_io_kind(right) ==> left == right,
        failure_io_kind(left) is Interrupted <==> left is Interrupted,
        failure_io_kind(left) is WouldBlock <==> left is WouldBlock,
        failure_io_kind(left) is TimedOut <==> left is TimedOut,
        failure_io_kind(left) is PermissionDenied <==> left is Access,
        failure_io_kind(left) is NotConnected <==> left is Disconnected,
        failure_io_kind(left) is InvalidData <==> left is Protocol,
{
}

}
