//! Stable telemetry records of the command-line tools.

use std::time::{Duration, Instant};

use vstd::prelude::*;

use crate::{tool_name, Tool};

verus! {

/// Version of the telemetry schema.
pub const SCHEMA_VERSION: u8 = 1;

/// `std::time::Instant`, a reading of the monotonic clock.
#[verifier::external_type_specification]
#[verifier::external_body]
pub struct ExInstant(Instant);

/// `Instant::now` reads the clock. Nothing is said of the reading, which depends on the time.
pub assume_specification[ Instant::now ]() -> Instant;

/// `Instant::elapsed` is the time since a reading. Nothing is said of it, as it depends on the
/// time.
pub assume_specification[ Instant::elapsed ](instant: &Instant) -> Duration;

/// `Duration::as_nanos` is the length of a duration in nanoseconds. Nothing is said of the
/// number, since durations only ever come from the clock here.
pub assume_specification[ Duration::as_nanos ](duration: &Duration) -> u128;

/// Process-relative monotonic timestamp source.
#[derive(Debug)]
pub struct EventClock(Instant);

impl Default for EventClock {
    /// A clock that starts now.
    fn default() -> (clock: EventClock)
        ensures
            read_now(clock.start()),
    {
        EventClock(Instant::now())
    }
}

/// Whether a reading is one that the clock gave when it was asked for the time.
pub open spec fn read_now(reading: Instant) -> bool {
    call_ensures(Instant::now, (), reading)
}

/// A nanosecond count as far as 64 bits hold it.
pub open spec fn saturated(nanos: u128) -> u64 {
    if nanos <= u64::MAX {
        nanos as u64
    } else {
        u64::MAX
    }
}

/// A nanosecond count as far as 64 bits hold it.
pub fn saturated_nanos(nanos: u128) -> (count: u64)
    ensures
        count == saturated(nanos),
{
    if nanos <= u64::MAX as u128 {
        nanos as u64
    } else {
        u64::MAX
    }
}

/// Whether `count` is, as far as 64 bits hold it, the length in nanoseconds of a time that the
/// clock can give as the time since the reading `start`.
pub open spec fn counts_since(start: Instant, count: u64) -> bool {
    exists|elapsed: Duration, nanos: u128|
        {
            &&& #[trigger] call_ensures(Instant::elapsed, (&start,), elapsed)
            &&& #[trigger] call_ensures(Duration::as_nanos, (&elapsed,), nanos)
            &&& count == saturated(nanos)
        }
}

/// Timestamps do not go back while the time does not: a later count of nanoseconds gives a
/// timestamp that is not smaller, and one that 64 bits hold is kept as it is. In particular
/// nothing wraps around.
pub proof fn timestamps_keep_the_order(earlier: u128, later: u128)
    requires
        earlier <= later,
    ensures
        saturated(earlier) <= saturated(later),
        later <= u64::MAX ==> saturated(later) == later,
        later > u64::MAX ==> saturated(later) == u64::MAX,
{
}

impl EventClock {
    /// The reading at which the clock started.
    pub closed spec fn start(&self) -> Instant {
        self.0
    }

    /// Nanoseconds since the clock started, as far as 64 bits hold them.
    #[must_use]
    pub fn elapsed_ns(&self) -> (count: u64)
        ensures
            counts_since(self.start(), count),
    {
        let elapsed = self.0.elapsed();
        let nanos: u128 = elapsed.as_nanos();
        saturated_nanos(nanos)
    }
}

/// The transport of a session.
#[derive(Clone, Copy, Debug, PartialEq, Eq, Structural)]
pub enum Backend {
    Glasgow,
    Vcp,
    Usb,
}

/// The stage of a session.
#[derive(Clone, Copy, Debug, PartialEq, Eq, Structural)]
pub enum Phase {
    Selected,
    Opened,
    Running,
    Draining,
    Closing,
    Final,
}

/// Receive errors that the hardware counted.
#[derive(Clone, Copy, Debug, PartialEq, Eq, Structural)]
pub struct HardwareCounters {
    pub rx_errors: u64,
    pub rx_overflow: u64,
}

impl Default for HardwareCounters {
    fn default() -> (counters: HardwareCounters)
        ensures
            counters == (HardwareCounters { rx_errors: 0, rx_overflow: 0 }),
    {
        HardwareCounters { rx_errors: 0, rx_overflow: 0 }
    }
}

/// Complete snapshot written as one stable NDJSON record.
#[derive(Clone, Debug)]
pub struct EventRecord<'a> {
    pub schema_version: u8,
    pub monotonic_ns: u64,
    pub tool: &'a str,
    pub backend: Backend,
    pub selected_serial: Option<&'a str>,
    pub selected_path: Option<&'a str>,
    pub requested_baud: Option<u32>,
    pub actual_baud: Option<u32>,
    pub phase: Phase,
    pub tx_bytes_accepted: u64,
    pub tx_bytes_completed: u64,
    pub rx_bytes: u64,
    pub hardware: HardwareCounters,
    pub reason: Option<&'a str>,
    pub exit_code: Option<i32>,
}

/// Whether `written` is `record` with the schema version, a timestamp and a tool name of the
/// log in place of its own.
pub open spec fn stamped(
    record: EventRecord<'_>,
    written: EventRecord<'_>,
    monotonic_ns: u64,
    tool: Tool,
) -> bool {
    &&& written.schema_version == SCHEMA_VERSION
    &&& written.monotonic_ns == monotonic_ns
    &&& written.tool@ == tool_name(tool)
    &&& written.backend == record.backend
    &&& written.selected_serial == record.selected_serial
    &&& written.selected_path == record.selected_path
    &&& written.requested_baud == record.requested_baud
    &&& written.actual_baud == record.actual_baud
    &&& written.phase == record.phase
    &&& written.tx_bytes_accepted == record.tx_bytes_accepted
    &&& written.tx_bytes_completed == record.tx_bytes_completed
    &&& written.rx_bytes == record.rx_bytes
    &&& written.hardware == record.hardware
    &&& written.reason == record.reason
    &&& written.exit_code == record.exit_code
}

/// Optional event sink: it stamps the records, and carries the writer that they go to.
#[derive(Debug)]
pub struct EventLog<W> {
    writer: Option<W>,
    clock: EventClock,
    tool: Tool,
}

impl<W> EventLog<W> {
    /// Where the records go.
    pub closed spec fn sink(&self) -> Option<W> {
        self.writer
    }

    /// The tool that the records name.
    pub closed spec fn source(&self) -> Tool {
        self.tool
    }

    /// A log of `tool` that starts now and goes to `writer`, or nowhere.
    pub fn open(writer: Option<W>, tool: Tool) -> (log: Self)
        ensures
            log.sink() == writer,
            log.source() == tool,
            read_now(log.start()),
    {
        EventLog { writer, clock: EventClock::default(), tool }
    }

    /// The reading at which the log started.
    pub closed spec fn start(&self) -> Instant {
        self.clock.start()
    }

    /// Nanoseconds since the log started, as far as 64 bits hold them.
    #[must_use]
    pub fn timestamp(&self) -> (count: u64)
        ensures
            counts_since(self.start(), count),
    {
        self.clock.elapsed_ns()
    }

    /// What is written of `record` at `monotonic_ns`: nothing without a writer.
    pub fn stamp<'a>(&self, record: EventRecord<'a>, monotonic_ns: u64) -> (written: Option<
        EventRecord<'a>,
    >)
        ensures
            written is Some <==> self.sink() is Some,
            written matches Some(written) ==> stamped(
                record,
                written,
                monotonic_ns,
                self.source(),
            ),
    {
        match &self.writer {
            None => None,
            Some(_) => Some(
                EventRecord {
                    schema_version: SCHEMA_VERSION,
                    monotonic_ns,
                    tool: self.tool.name(),
                    backend: record.backend,
                    selected_serial: record.selected_serial,
                    selected_path: record.selected_path,
                    requested_baud: record.requested_baud,
                    actual_baud: record.actual_baud,
                    phase: record.phase,
                    tx_bytes_accepted: record.tx_bytes_accepted,
                    tx_bytes_completed: record.tx_bytes_completed,
                    rx_bytes: record.rx_bytes,
                    hardware: record.hardware,
                    reason: record.reason,
                    exit_code: record.exit_code,
                },
            ),
        }
    }

    /// The writer, for one record and its line end.
    pub fn writer(&mut self) -> (writer: &mut Option<W>)
        ensures
            *writer == old(self).sink(),
            final(self).sink() == *final(writer),
            final(self).source() == old(self).source(),
            final(self).start() == old(self).start(),
    {
        &mut self.writer
    }
}

}
