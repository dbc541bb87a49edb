//! Bounded full-duplex sessions of the command-line tools.
//!
//! The workers and the coordinator are those of [`crate::uart`]; this module adds the event
//! log, and what the tools make of the end of a session.

use vstd::prelude::*;
use vstd::string::*;

use crate::cli::{
    app_result_view, category_exit_code, exit_code_value, AppError, ExitCode,
};
use crate::error::{error_view, Category, ErrorView};
use crate::events::{stamped, Backend, EventRecord, HardwareCounters, Phase, SCHEMA_VERSION};
use crate::span::Span;
use crate::text::{borrow_text, borrowed_view, decimal, joined, push_decimal};
use crate::uart::session::{Conclusion, ConclusionView};
use crate::{tool_name, Tool};

pub use crate::uart::session::{SessionMode, SessionStatistics, StopReason};
pub use crate::uart::transport::{TransferFailure, TransferFailureKind, TransferOutcome};
pub use crate::uart::worker::{APPLICATION_QUEUE_BYTES, CONSOLE_ESCAPE};

verus! {

broadcast use vstd::string::group_string_axioms;

/// How a session runs.
#[derive(Clone, Debug)]
pub struct SessionOptions {
    pub mode: SessionMode,
    pub rx_idle_timeout: Span,
    pub drain_timeout: Span,
}

impl SessionOptions {
    /// An interactive session, with the timeouts of the tools.
    pub fn console() -> (options: Self)
        ensures
            options.mode == SessionMode::Console,
            options.rx_idle_timeout@ == 2_000_000_000,
            options.drain_timeout@ == 5_000_000_000,
    {
        SessionOptions {
            mode: SessionMode::Console,
            rx_idle_timeout: Span::from_secs(2),
            drain_timeout: Span::from_secs(5),
        }
    }

    /// A byte-transparent session.
    pub fn stream(rx_idle_timeout: Span, drain_timeout: Span) -> (options: Self)
        ensures
            options.mode == SessionMode::Stream,
            options.rx_idle_timeout == rx_idle_timeout,
            options.drain_timeout == drain_timeout,
    {
        SessionOptions { mode: SessionMode::Stream, rx_idle_timeout, drain_timeout }
    }
}

/// What is known of an open transport.
#[derive(Clone, Debug)]
pub struct TransportMetadata {
    pub backend: Backend,
    pub serial: String,
    pub path: Option<String>,
    pub requested_baud: u32,
    pub actual_baud: u32,
    pub minimum_baud: u32,
    pub maximum_baud: u32,
}

/// What is known of an open transport, by views.
#[verifier::ext_equal]
pub struct TransportMetadataView {
    pub backend: Backend,
    pub serial: Seq<char>,
    pub path: Option<Seq<char>>,
    pub requested_baud: u32,
    pub actual_baud: u32,
    pub minimum_baud: u32,
    pub maximum_baud: u32,
}

impl DeepView for TransportMetadata {
    type V = TransportMetadataView;

    open spec fn deep_view(&self) -> TransportMetadataView {
        TransportMetadataView {
            backend: self.backend,
            serial: self.serial@,
            path: self.path.deep_view(),
            requested_baud: self.requested_baud,
            actual_baud: self.actual_baud,
            minimum_baud: self.minimum_baud,
            maximum_baud: self.maximum_baud,
        }
    }
}

/// Synchronous device transport. Implementations must make `cancel` unblock I/O.
pub trait Transport: Send + Sync {
    fn metadata(&self) -> &TransportMetadata;

    fn read(&self, buffer: &mut [u8]) -> TransferOutcome;

    fn write(&self, data: &[u8]) -> TransferOutcome;

    /// Submit transport-buffered TX data without waiting for physical completion.
    fn submit_tx(&self) {
    }

    fn drain(&self, timeout: Span) -> Result<(), AppError>;

    fn cancel(&self);

    fn counters(&self) -> HardwareCounters;
}

/// How a session that succeeded ended.
#[derive(Clone, Copy, Debug, PartialEq, Eq, Structural)]
pub struct SessionReport {
    pub statistics: SessionStatistics,
    pub hardware: HardwareCounters,
    pub reason: StopReason,
    pub exit_code: ExitCode,
}

/// Whether `record` is the snapshot of a session at `monotonic_ns`, before the log names its
/// tool.
pub open spec fn snapshots(
    record: EventRecord<'_>,
    monotonic_ns: u64,
    metadata: TransportMetadataView,
    hardware: HardwareCounters,
    phase: Phase,
    statistics: SessionStatistics,
    reason: Option<Seq<char>>,
    exit_code: Option<ExitCode>,
) -> bool {
    &&& record.schema_version == SCHEMA_VERSION
    &&& record.monotonic_ns == monotonic_ns
    &&& record.tool@ == ""@
    &&& record.backend == metadata.backend
    &&& borrowed_view(record.selected_serial) == Some(metadata.serial)
    &&& borrowed_view(record.selected_path) == metadata.path
    &&& record.requested_baud == Some(metadata.requested_baud)
    &&& record.actual_baud == Some(metadata.actual_baud)
    &&& record.phase == phase
    &&& record.tx_bytes_accepted == statistics.tx_bytes_accepted
    &&& record.tx_bytes_completed == statistics.tx_bytes_completed
    &&& record.rx_bytes == statistics.rx_bytes
    &&& record.hardware == hardware
    &&& borrowed_view(record.reason) == reason
    &&& record.exit_code == (match exit_code {
        Some(code) => Some(exit_code_value(code)),
        None => None,
    })
}

/// The snapshot of a session.
pub fn session_record<'a>(
    monotonic_ns: u64,
    metadata: &'a TransportMetadata,
    hardware: HardwareCounters,
    phase: Phase,
    statistics: SessionStatistics,
    reason: Option<&'a str>,
    exit_code: Option<ExitCode>,
) -> (record: EventRecord<'a>)
    ensures
        snapshots(
            record,
            monotonic_ns,
            metadata.deep_view(),
            hardware,
            phase,
            statistics,
            borrowed_view(reason),
            exit_code,
        ),
{
    EventRecord {
        schema_version: SCHEMA_VERSION,
        monotonic_ns,
        tool: "",
        backend: metadata.backend,
        selected_serial: Some(metadata.serial.as_str()),
        selected_path: borrow_text(&metadata.path),
        requested_baud: Some(metadata.requested_baud),
        actual_baud: Some(metadata.actual_baud),
        phase,
        tx_bytes_accepted: statistics.tx_bytes_accepted,
        tx_bytes_completed: statistics.tx_bytes_completed,
        rx_bytes: statistics.rx_bytes,
        hardware,
        reason,
        exit_code: match exit_code {
            Some(code) => Some(code.as_i32()),
            None => None,
        },
    }
}

/// The error for a record that the log did not take.
pub open spec fn log_error(reason: Seq<char>) -> ErrorView {
    error_view(Category::Access, "event log write failed: "@ + reason)
}

/// The error for a record that the log did not take.
pub fn log_write_failed(reason: &str) -> (error: AppError)
    ensures
        error.deep_view() == log_error(reason@),
{
    AppError::Access(joined("event log write failed: ", reason))
}

/// The error for a worker that panicked, the transmitter before the receiver. It comes before
/// whatever else the session met.
pub open spec fn joined_verdict(tx_panicked: bool, rx_panicked: bool) -> Result<(), ErrorView> {
    if tx_panicked {
        Err(error_view(Category::Protocol, "TX worker panicked"@))
    } else if rx_panicked {
        Err(error_view(Category::Protocol, "RX worker panicked"@))
    } else {
        Ok(())
    }
}

/// Takes how the workers left.
pub fn workers_joined(tx_panicked: bool, rx_panicked: bool) -> (result: Result<(), AppError>)
    ensures
        app_result_view(result) == joined_verdict(tx_panicked, rx_panicked),
{
    if tx_panicked {
        return Err(AppError::Protocol("TX worker panicked".to_owned()));
    }
    if rx_panicked {
        return Err(AppError::Protocol("RX worker panicked".to_owned()));
    }
    Ok(())
}

/// The reason and exit code of the final record.
pub open spec fn final_record(conclusion: ConclusionView) -> (Option<StopReason>, ExitCode) {
    match conclusion {
        ConclusionView::Abandon(error) => (None, category_exit_code(error.category)),
        ConclusionView::Fail { stop_reason, error } => (
            stop_reason,
            category_exit_code(error.category),
        ),
        ConclusionView::Succeed { reason } => (Some(reason), ExitCode::Success),
    }
}

/// What the final record says of how a session ended.
pub fn final_status(conclusion: &Conclusion) -> (status: (Option<StopReason>, ExitCode))
    ensures
        status == final_record(conclusion.deep_view()),
{
    match conclusion {
        Conclusion::Abandon(error) => (None, error_exit(error)),
        Conclusion::Fail { stop_reason, error } => (*stop_reason, error_exit(error)),
        Conclusion::Succeed { reason } => (Some(*reason), ExitCode::Success),
    }
}

fn error_exit(error: &crate::error::Error) -> (code: ExitCode)
    ensures
        code == category_exit_code(error.deep_view().category),
{
    match error.category() {
        Category::Selection => ExitCode::CliOrSelection,
        Category::Access => ExitCode::AccessOrBusy,
        Category::Protocol => ExitCode::ProtocolOrResource,
        Category::Timeout => ExitCode::TimeoutOrCancellation,
        Category::Validation => ExitCode::ValidationMismatch,
    }
}

/// The result of a session, once its final record is written. A log that refused the record
/// wins over the session's own result.
pub open spec fn tool_result(
    conclusion: ConclusionView,
    refusal: Option<ErrorView>,
    statistics: SessionStatistics,
    hardware: HardwareCounters,
) -> Result<SessionReport, ErrorView> {
    match refusal {
        Some(error) => Err(error),
        None => match conclusion {
            ConclusionView::Abandon(error) => Err(error),
            ConclusionView::Fail { error, .. } => Err(error),
            ConclusionView::Succeed { reason } => Ok(
                SessionReport { statistics, hardware, reason, exit_code: ExitCode::Success },
            ),
        },
    }
}

/// The result of a session, once its final record is written or refused.
pub fn session_result(
    conclusion: Conclusion,
    refusal: Option<AppError>,
    statistics: SessionStatistics,
    hardware: HardwareCounters,
) -> (result: Result<SessionReport, AppError>)
    ensures
        app_result_view(result) == tool_result(
            conclusion.deep_view(),
            refusal.deep_view(),
            statistics,
            hardware,
        ),
{
    match refusal {
        Some(error) => Err(error),
        None => match conclusion {
            Conclusion::Abandon(error) => Err(AppError::of(error)),
            Conclusion::Fail { error, .. } => Err(AppError::of(error)),
            Conclusion::Succeed { reason } => Ok(
                SessionReport { statistics, hardware, reason, exit_code: ExitCode::Success },
            ),
        },
    }
}

/// What a console session transmitted and received.
pub open spec fn traffic_text(statistics: SessionStatistics) -> Seq<char> {
    "TX accepted/completed: "@ + decimal(statistics.tx_bytes_accepted as nat) + "/"@ + decimal(
        statistics.tx_bytes_completed as nat,
    ) + ", RX: "@ + decimal(statistics.rx_bytes as nat) + " bytes"@
}

/// What the hardware counted in a console session.
pub open spec fn counters_text(hardware: HardwareCounters) -> Seq<char> {
    ", errors: "@ + decimal(hardware.rx_errors as nat) + ", overflow: "@ + decimal(
        hardware.rx_overflow as nat,
    )
}

/// The line that ends a console session, with what the hardware counted where it counts.
pub fn summary_line(statistics: SessionStatistics, hardware: Option<HardwareCounters>) -> (line:
    String)
    ensures
        line@ == (match hardware {
            Some(hardware) => traffic_text(statistics) + counters_text(hardware),
            None => traffic_text(statistics),
        }),
{
    let mut line = "TX accepted/completed: ".to_owned();
    push_decimal(&mut line, statistics.tx_bytes_accepted as u128);
    line.append("/");
    push_decimal(&mut line, statistics.tx_bytes_completed as u128);
    line.append(", RX: ");
    push_decimal(&mut line, statistics.rx_bytes as u128);
    line.append(" bytes");
    if let Some(hardware) = hardware {
        line.append(", errors: ");
        push_decimal(&mut line, hardware.rx_errors as u128);
        line.append(", overflow: ");
        push_decimal(&mut line, hardware.rx_overflow as u128);
        assert(line@ =~= traffic_text(statistics) + counters_text(hardware));
    }
    line
}

/// The tool tells what happened. A session that succeeded ends with its counts and reason, and
/// any other with its error; a log that refused the final record wins over both. The final
/// record has the exit code of success exactly where the session succeeded, and otherwise that
/// of its error.
pub proof fn tool_results_tell_what_happened(
    conclusion: ConclusionView,
    refusal: Option<ErrorView>,
    statistics: SessionStatistics,
    hardware: HardwareCounters,
)
    ensures
        ({
            let result = tool_result(conclusion, refusal, statistics, hardware);
            let (reason, code) = final_record(conclusion);
            &&& refusal matches Some(error) ==> result == Err::<SessionReport, ErrorView>(error)
            &&& result is Ok <==> refusal is None && conclusion is Succeed
            &&& result matches Ok(report) ==> {
                &&& report.statistics == statistics
                &&& report.hardware == hardware
                &&& conclusion == (ConclusionView::Succeed { reason: report.reason })
                &&& exit_code_value(report.exit_code) == 0
                &&& reason == Some(report.reason)
            }
            &&& exit_code_value(code) == 0 <==> conclusion is Succeed
            &&& refusal is None ==> (result matches Err(error) ==> code == category_exit_code(
                error.category,
            ))
            &&& conclusion matches ConclusionView::Fail { stop_reason, .. } ==> reason
                == stop_reason
        }),
{
}

/// A worker that panicked is a protocol failure, and workers that left in order are none.
pub proof fn panics_are_failures(tx_panicked: bool, rx_panicked: bool)
    ensures
        joined_verdict(tx_panicked, rx_panicked) is Ok <==> !tx_panicked && !rx_panicked,
        joined_verdict(tx_panicked, rx_panicked) matches Err(error) ==> error.category
            == Category::Protocol,
{
}

/// What is written to the log is what the session was: its bytes, its counters, its device and its
/// end, under the name of the tool and at the moment of the writing.
pub proof fn logs_tell_the_session(
    record: EventRecord<'_>,
    written: EventRecord<'_>,
    taken_ns: u64,
    written_ns: u64,
    tool: Tool,
    metadata: TransportMetadataView,
    hardware: HardwareCounters,
    phase: Phase,
    statistics: SessionStatistics,
    reason: Option<Seq<char>>,
    exit_code: Option<ExitCode>,
)
    requires
        snapshots(
            record,
            taken_ns,
            metadata,
            hardware,
            phase,
            statistics,
            reason,
            exit_code,
        ),
        stamped(record, written, written_ns, tool),
    ensures
        written.schema_version == 1,
        written.monotonic_ns == written_ns,
        written.tool@ == tool_name(tool),
        written.backend == metadata.backend,
        written.selected_serial is Some && written.selected_serial->0@ == metadata.serial,
        written.selected_path is Some <==> metadata.path is Some,
        written.selected_path is Some ==> Some(written.selected_path->0@) == metadata.path,
        written.requested_baud == Some(metadata.requested_baud),
        written.actual_baud == Some(metadata.actual_baud),
        written.phase == phase,
        written.tx_bytes_accepted == statistics.tx_bytes_accepted,
        written.tx_bytes_completed == statistics.tx_bytes_completed,
        written.rx_bytes == statistics.rx_bytes,
        written.hardware == hardware,
        written.reason is Some <==> reason is Some,
        written.reason is Some ==> Some(written.reason->0@) == reason,
        written.exit_code is Some <==> exit_code is Some,
        exit_code == Some(ExitCode::Success) ==> written.exit_code == Some(0i32),
        exit_code is Some && exit_code != Some(ExitCode::Success) ==> written.exit_code->0 > 1,
{
}

}
