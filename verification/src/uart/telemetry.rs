//! Session events, observers, and telemetry records.

use std::time::Instant;

use vstd::prelude::*;

use crate::cli::{category_exit_code, exit_code_value};
use crate::error::{Category, Error, ErrorView};
use crate::events::{counts_since, read_now, EventClock, SCHEMA_VERSION};
use crate::text::{borrow_text, borrowed_view};

use super::session::{reason_text, Conclusion, SessionStatistics, StopReason};
use super::transport::{Counters, Metadata, Transport};

verus! {

/// Observable stage of a UART session.
#[derive(Clone, Copy, Debug, PartialEq, Eq, Structural)]
pub enum SessionPhase {
    /// Workers are about to start.
    Running,
    /// Accepted TX data has completed at the device.
    Draining,
    /// Both workers have joined.
    Final,
}

/// Borrowed snapshot delivered to a session observer.
#[derive(Debug)]
pub struct SessionEvent<'a> {
    /// Selected port metadata.
    pub metadata: &'a Metadata,
    /// Current session phase.
    pub phase: SessionPhase,
    /// Current byte counters.
    pub statistics: SessionStatistics,
    /// Current hardware receive counters.
    pub counters: Counters,
    /// Session stop reason, once known.
    pub stop_reason: Option<StopReason>,
    /// Final coordinator error, when the session failed.
    pub error: Option<&'a Error>,
}

/// Receives synchronous session snapshots.
pub trait SessionObserver {
    /// Observe one session event. An observer-specific error stops the session coordinator.
    fn observe(&mut self, event: &SessionEvent<'_>) -> Result<(), Error>;
}

/// Observer that discards all events.
#[derive(Clone, Copy, Debug, PartialEq, Eq, Structural)]
pub struct NoopObserver;

impl Default for NoopObserver {
    fn default() -> (observer: NoopObserver)
        ensures
            observer == NoopObserver,
    {
        NoopObserver
    }
}

impl SessionObserver for NoopObserver {
    fn observe(&mut self, event: &SessionEvent<'_>) -> (result: Result<(), Error>)
        ensures
            result is Ok,
    {
        Ok(())
    }
}

/// A snapshot of a session over `transport`.
pub fn session_event<'a, T: Transport>(
    transport: &'a T,
    phase: SessionPhase,
    statistics: SessionStatistics,
    stop_reason: Option<StopReason>,
    error: Option<&'a Error>,
) -> (event: SessionEvent<'a>)
    ensures
        call_ensures(T::metadata, (transport,), event.metadata),
        call_ensures(T::counters, (transport,), event.counters),
        event.phase == phase,
        event.statistics == statistics,
        event.stop_reason == stop_reason,
        event.error == error,
{
    SessionEvent {
        metadata: transport.metadata(),
        phase,
        statistics,
        counters: transport.counters(),
        stop_reason,
        error,
    }
}

/// What the observer is told last: nothing if it refused an event before, and otherwise the
/// stop reason and the error with which the session ends.
pub open spec fn final_notice(conclusion: Conclusion) -> Option<
    (Option<StopReason>, Option<Error>),
> {
    match conclusion {
        Conclusion::Abandon(_) => None,
        Conclusion::Fail { stop_reason, error } => Some((stop_reason, Some(error))),
        Conclusion::Succeed { reason } => Some((Some(reason), None)),
    }
}

/// The snapshot that ends a session over `transport`, unless the observer is not to be told.
pub fn final_event<'a, T: Transport>(
    transport: &'a T,
    statistics: SessionStatistics,
    conclusion: &'a Conclusion,
) -> (event: Option<SessionEvent<'a>>)
    ensures
        event is Some <==> final_notice(*conclusion) is Some,
        event matches Some(event) ==> {
            &&& call_ensures(T::metadata, (transport,), event.metadata)
            &&& call_ensures(T::counters, (transport,), event.counters)
            &&& event.phase == SessionPhase::Final
            &&& event.statistics == statistics
            &&& event.stop_reason == (final_notice(*conclusion)->0).0
            &&& match event.error {
                Some(error) => (final_notice(*conclusion)->0).1 == Some(*error),
                None => (final_notice(*conclusion)->0).1 is None,
            }
        },
{
    match conclusion {
        Conclusion::Abandon(_) => None,
        Conclusion::Fail { stop_reason, error } => Some(
            session_event(transport, SessionPhase::Final, statistics, *stop_reason, Some(error)),
        ),
        Conclusion::Succeed { reason } => Some(
            session_event(transport, SessionPhase::Final, statistics, Some(*reason), None),
        ),
    }
}

/// The process exit status of each error category.
pub open spec fn exit_status(category: Category) -> i32 {
    match category {
        Category::Selection => 2,
        Category::Access => 3,
        Category::Protocol => 4,
        Category::Timeout => 5,
        Category::Validation => 6,
    }
}

/// A session reports an error with the exit status that its process ends with.
pub proof fn exit_statuses_agree(category: Category)
    ensures
        exit_status(category) == exit_code_value(category_exit_code(category)),
{
}

/// The process exit status of an error.
pub fn error_exit_code(error: &Error) -> (code: i32)
    ensures
        code == exit_status(error.deep_view().category),
{
    match error {
        Error::Selection(_) => 2,
        Error::Access(_) => 3,
        Error::Protocol(_) => 4,
        Error::Timeout(_) => 5,
        Error::Validation(_) => 6,
    }
}

/// One telemetry record.
#[derive(Clone, Debug)]
pub struct EventRecord<'a> {
    pub schema_version: u8,
    pub monotonic_ns: u64,
    pub tool: &'a str,
    pub backend: &'static str,
    pub selected_serial: Option<&'a str>,
    pub selected_path: Option<&'a str>,
    pub requested_baud: Option<u32>,
    pub actual_baud: Option<u32>,
    pub phase: SessionPhase,
    pub tx_bytes_accepted: u64,
    pub tx_bytes_completed: u64,
    pub rx_bytes: u64,
    pub hardware: Counters,
    pub reason: Option<&'static str>,
    pub exit_code: Option<i32>,
}

/// The exit code of a record: only the final one has it, and it is zero without an error.
pub open spec fn record_exit_code(phase: SessionPhase, error: Option<ErrorView>) -> Option<i32> {
    if phase == SessionPhase::Final {
        Some(
            match error {
                Some(error) => exit_status(error.category),
                None => 0,
            },
        )
    } else {
        None
    }
}

/// The error of an event by category and diagnostic.
pub open spec fn event_error(event: SessionEvent<'_>) -> Option<ErrorView> {
    match event.error {
        Some(error) => Some(error.deep_view()),
        None => None,
    }
}

/// Whether `record` is the record of `event` at `monotonic_ns` from `source`.
pub open spec fn records(
    record: EventRecord<'_>,
    monotonic_ns: u64,
    source: Seq<char>,
    event: SessionEvent<'_>,
) -> bool {
    &&& record.schema_version == SCHEMA_VERSION
    &&& record.monotonic_ns == monotonic_ns
    &&& record.tool@ == source
    &&& record.backend@ == event.metadata.backend@
    &&& borrowed_view(record.selected_serial) == event.metadata.serial.deep_view()
    &&& borrowed_view(record.selected_path) == event.metadata.path.deep_view()
    &&& record.requested_baud == Some(event.metadata.requested_baud)
    &&& record.actual_baud == Some(event.metadata.actual_baud)
    &&& record.phase == event.phase
    &&& record.tx_bytes_accepted == event.statistics.tx_bytes_accepted
    &&& record.tx_bytes_completed == event.statistics.tx_bytes_completed
    &&& record.rx_bytes == event.statistics.rx_bytes
    &&& record.hardware == event.counters
    &&& match (record.reason, event.stop_reason) {
        (Some(text), Some(reason)) => text@ == reason_text(reason),
        (None, None) => true,
        _ => false,
    }
    &&& record.exit_code == record_exit_code(event.phase, event_error(event))
}

/// NDJSON session observer preserving telemetry schema version 1: it makes the records, and
/// carries the writer that they go to.
pub struct NdjsonObserver<W> {
    writer: W,
    source: String,
    started: EventClock,
}

impl<W> NdjsonObserver<W> {
    /// Where the records go.
    pub closed spec fn sink(&self) -> W {
        self.writer
    }

    /// The tool name in the records.
    pub closed spec fn name(&self) -> Seq<char> {
        self.source@
    }

    /// Create an observer of `source` whose records go to `writer`.
    pub fn new(writer: W, source: &str) -> (observer: Self)
        ensures
            observer.sink() == writer,
            observer.name() == source@,
            read_now(observer.start()),
    {
        NdjsonObserver { writer, source: source.to_owned(), started: EventClock::default() }
    }

    /// Recover the underlying writer.
    pub fn into_inner(self) -> (writer: W)
        ensures
            writer == self.sink(),
    {
        self.writer
    }

    /// The writer, for one record and its line end.
    pub fn writer(&mut self) -> (writer: &mut W)
        ensures
            *writer == old(self).sink(),
            final(self).sink() == *final(writer),
            final(self).name() == old(self).name(),
            final(self).start() == old(self).start(),
    {
        &mut self.writer
    }

    /// The reading of the clock from which this observer counts.
    pub closed spec fn start(&self) -> Instant {
        self.started.start()
    }

    /// Nanoseconds since this observer was created, as far as 64 bits hold them.
    pub fn elapsed_ns(&self) -> (count: u64)
        ensures
            counts_since(self.start(), count),
    {
        self.started.elapsed_ns()
    }

    /// The record of `event` at `monotonic_ns`.
    pub fn record<'a>(&'a self, monotonic_ns: u64, event: &'a SessionEvent<'a>) -> (record:
        EventRecord<'a>)
        ensures
            records(record, monotonic_ns, self.name(), *event),
    {
        let exit_code = if event.phase == SessionPhase::Final {
            match event.error {
                Some(error) => Some(error_exit_code(error)),
                None => Some(0),
            }
        } else {
            None
        };
        let reason = match event.stop_reason {
            Some(reason) => Some(reason.as_str()),
            None => None,
        };
        EventRecord {
            schema_version: SCHEMA_VERSION,
            monotonic_ns,
            tool: self.source.as_str(),
            backend: event.metadata.backend,
            selected_serial: borrow_text(&event.metadata.serial),
            selected_path: borrow_text(&event.metadata.path),
            requested_baud: Some(event.metadata.requested_baud),
            actual_baud: Some(event.metadata.actual_baud),
            phase: event.phase,
            tx_bytes_accepted: event.statistics.tx_bytes_accepted,
            tx_bytes_completed: event.statistics.tx_bytes_completed,
            rx_bytes: event.statistics.rx_bytes,
            hardware: event.counters,
            reason,
            exit_code,
        }
    }
}

/// Only the final record of a session has an exit code, and it is zero exactly without an error.
/// Errors of different categories have different codes.
pub proof fn final_records_have_exit_codes(
    phase: SessionPhase,
    error: Option<ErrorView>,
    left: Category,
    right: Category,
)
    ensures
        record_exit_code(phase, error) is Some <==> phase == SessionPhase::Final,
        phase == SessionPhase::Final ==> (record_exit_code(phase, error) == Some(0i32)
            <==> error is None),
        exit_status(left) == exit_status(right) ==> left == right,
{
}

/// The observer is told of the end of every session but one that it refused: of a success with its
/// reason and without an error, of a failure with its error.
pub proof fn endings_are_told(conclusion: Conclusion)
    ensures
        final_notice(conclusion) is None <==> conclusion is Abandon,
        conclusion matches Conclusion::Succeed { reason } ==> final_notice(conclusion) == Some(
            (Some(reason), None::<Error>),
        ),
        conclusion matches Conclusion::Fail { stop_reason, error } ==> final_notice(conclusion)
            == Some((stop_reason, Some(error))),
{
}

/// A record tells its event: the bytes, the counters and the port of the session, and how it ended.
pub proof fn records_tell_their_events(
    record: EventRecord<'_>,
    monotonic_ns: u64,
    source: Seq<char>,
    event: SessionEvent<'_>,
)
    requires
        records(record, monotonic_ns, source, event),
    ensures
        record.schema_version == 1,
        record.monotonic_ns == monotonic_ns,
        record.tool@ == source,
        record.tx_bytes_accepted == event.statistics.tx_bytes_accepted,
        record.tx_bytes_completed == event.statistics.tx_bytes_completed,
        record.rx_bytes == event.statistics.rx_bytes,
        record.hardware == event.counters,
        record.phase == event.phase,
        record.backend@ == event.metadata.backend@,
        record.requested_baud == Some(event.metadata.requested_baud),
        record.actual_baud == Some(event.metadata.actual_baud),
        record.selected_serial is Some <==> event.metadata.serial is Some,
        record.selected_serial is Some ==> record.selected_serial->0@
            == event.metadata.serial->0@,
        record.selected_path is Some <==> event.metadata.path is Some,
        record.selected_path is Some ==> record.selected_path->0@ == event.metadata.path->0@,
        record.reason is Some <==> event.stop_reason is Some,
        event.stop_reason == Some(StopReason::RxIdle) ==> record.reason->0@ == "rx_idle"@,
        event.stop_reason == Some(StopReason::ConsoleEscape) ==> record.reason->0@
            == "console_escape"@,
        event.stop_reason == Some(StopReason::Cancelled) ==> record.reason->0@ == "cancelled"@,
        record.exit_code is Some <==> event.phase == SessionPhase::Final,
        event.phase == SessionPhase::Final && event.error is None ==> record.exit_code == Some(
            0i32,
        ),
        event.phase == SessionPhase::Final && event.error is Some ==> record.exit_code->0 > 1,
{
}

}
