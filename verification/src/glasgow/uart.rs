//! A Glasgow UART in operation: receive counters, transfers, and drains.

use vstd::prelude::*;

use crate::cli::AppError;
use crate::events::HardwareCounters;
use crate::span::Span;
use crate::transfer::{drain_progress, drain_step, DrainProgress};
use crate::uart::transport::{
    failed_outcome, OutcomeView, TransferFailureKind, TransferOutcome,
};

pub use crate::baud::baud_divisor;
pub use crate::transfer::map_io_error;

verus! {

/// How many bytes a USB transfer holds.
pub const USB_TRANSFER_SIZE: usize = 32768;

/// How many USB transfers an endpoint queues.
pub const USB_TRANSFER_COUNT: usize = 8;

/// How long one transfer may take, in milliseconds.
pub const IO_TIMEOUT_MILLIS: u64 = 50;

/// How often the receive counters are read, in milliseconds.
pub const COUNTER_POLL_MILLIS: u64 = 250;

/// The pause between two looks at a draining transmitter, in milliseconds.
pub const DRAIN_POLL_MILLIS: u64 = 10;

/// How long the transmitter stays idle before the port is switched off, in milliseconds.
pub const SHUTDOWN_SETTLE_MILLIS: u64 = 100;

/// The bit of the transmit state that says that the line is idle.
pub const TX_IDLE_BIT: u32 = 0x8000_0000;

/// The receive counters of an open UART, counted from when it was opened.
#[derive(Debug)]
pub struct ReceiveCounters {
    errors_baseline: u32,
    overflow_baseline: u32,
    rx_errors: u64,
    rx_overflow: u64,
    last_poll: Span,
}

/// The receive counters of an open UART, by views.
pub struct ReceiveCountersView {
    pub errors_baseline: u32,
    pub overflow_baseline: u32,
    pub counted: HardwareCounters,
    pub last_poll: nat,
}

impl DeepView for ReceiveCounters {
    type V = ReceiveCountersView;

    closed spec fn deep_view(&self) -> ReceiveCountersView {
        ReceiveCountersView {
            errors_baseline: self.errors_baseline,
            overflow_baseline: self.overflow_baseline,
            counted: HardwareCounters {
                rx_errors: self.rx_errors,
                rx_overflow: self.rx_overflow,
            },
            last_poll: self.last_poll@,
        }
    }
}

/// How far a counter is above its baseline; one below it counts as no progress.
pub open spec fn above(value: u32, baseline: u32) -> u64 {
    if value >= baseline {
        (value - baseline) as u64
    } else {
        0
    }
}

/// Whether the counters are to be read again.
pub open spec fn poll_due(counters: ReceiveCountersView, now: nat) -> bool {
    now - counters.last_poll >= COUNTER_POLL_MILLIS * 1_000_000
}

impl ReceiveCounters {
    /// The counters of a UART that was opened at `now`.
    pub fn new(errors_baseline: u32, overflow_baseline: u32, now: Span) -> (counters: Self)
        ensures
            counters.deep_view() == (ReceiveCountersView {
                errors_baseline,
                overflow_baseline,
                counted: HardwareCounters { rx_errors: 0, rx_overflow: 0 },
                last_poll: now@,
            }),
    {
        ReceiveCounters {
            errors_baseline,
            overflow_baseline,
            rx_errors: 0,
            rx_overflow: 0,
            last_poll: now,
        }
    }

    /// Whether the counters are to be read again at `now`.
    pub fn due(&self, now: Span) -> (due: bool)
        ensures
            due == poll_due(self.deep_view(), now@),
    {
        let last = self.last_poll.as_nanos();
        let moment = now.as_nanos();
        let elapsed = if moment > last {
            moment - last
        } else {
            0
        };
        !(elapsed < COUNTER_POLL_MILLIS as u128 * 1_000_000)
    }

    /// Takes the counters as they were read at `now`.
    pub fn refresh(&mut self, errors: u32, overflow: u32, now: Span)
        ensures
            final(self).deep_view() == (ReceiveCountersView {
                counted: HardwareCounters {
                    rx_errors: above(errors, old(self).deep_view().errors_baseline),
                    rx_overflow: above(overflow, old(self).deep_view().overflow_baseline),
                },
                last_poll: now@,
                ..old(self).deep_view()
            }),
    {
        self.rx_errors = errors.saturating_sub(self.errors_baseline) as u64;
        self.rx_overflow = overflow.saturating_sub(self.overflow_baseline) as u64;
        self.last_poll = now;
    }

    /// What was counted when the counters were last read.
    pub fn snapshot(&self) -> (counters: HardwareCounters)
        ensures
            counters == self.deep_view().counted,
    {
        HardwareCounters { rx_errors: self.rx_errors, rx_overflow: self.rx_overflow }
    }
}

/// The outcome of a read whose counters were refreshed, or not: a refresh that failed is a
/// failure of the read, which keeps its bytes.
pub open spec fn read_with_counters(outcome: OutcomeView, refreshed: Result<(), Seq<char>>) -> OutcomeView {
    match refreshed {
        Ok(()) => outcome,
        Err(message) => failed_outcome(
            outcome.completed,
            TransferFailureKind::Protocol,
            message,
        ),
    }
}

/// The outcome of a read, given what came of the refresh of the counters.
pub fn read_outcome(outcome: TransferOutcome, refreshed: Result<(), AppError>) -> (result:
    TransferOutcome)
    ensures
        result.deep_view() == read_with_counters(
            outcome.deep_view(),
            match refreshed {
                Ok(()) => Ok(()),
                Err(error) => Err(error.deep_view().message),
            },
        ),
{
    match refreshed {
        Ok(()) => outcome,
        Err(error) => TransferOutcome::failed(
            outcome.completed,
            TransferFailureKind::Protocol,
            error.message(),
        ),
    }
}

/// Whether a transmit state says that the line is idle and nothing is queued.
pub open spec fn transmitter_idle(state: u32) -> bool {
    state == TX_IDLE_BIT
}

/// Decides what a transmit state calls for while the UART drains.
pub fn drain_poll(state: u32, overdue: bool, timeout: Span) -> (progress: DrainProgress)
    ensures
        progress.deep_view() == drain_progress(
            transmitter_idle(state),
            overdue,
            "Glasgow UART"@,
            timeout@,
        ),
{
    let idle = state & 0x8000_0000 != 0 && state & !0x8000_0000 == 0;
    assert(idle == (state == 0x8000_0000)) by (bit_vector)
        requires
            idle == (state & 0x8000_0000 != 0 && state & !0x8000_0000u32 == 0),
    ;
    drain_step(idle, overdue, "Glasgow UART", timeout)
}

/// The counters count from when the UART was opened: what is counted makes up, with the
/// baseline, what the hardware counts, and a later reading never counts less than an earlier one.
pub proof fn counters_count_from_the_opening(earlier: u32, later: u32, baseline: u32)
    ensures
        later >= baseline ==> baseline + above(later, baseline) == later,
        later < baseline ==> above(later, baseline) == 0,
        earlier <= later ==> above(earlier, baseline) <= above(later, baseline),
{
}

/// Counters that were read rest for a quarter of a second, and are due from then on.
pub proof fn counters_are_read_four_times_a_second(counters: ReceiveCountersView, now: nat)
    ensures
        poll_due(counters, now) <==> now >= counters.last_poll + 250_000_000,
{
}

/// A refresh neither adds to nor takes from the bytes that were read. One that failed is reported
/// with its own diagnostic and as a protocol failure; one that succeeded changes nothing.
pub proof fn refreshes_keep_the_bytes(outcome: OutcomeView, message: Seq<char>)
    ensures
        read_with_counters(outcome, Ok(())) == outcome,
        read_with_counters(outcome, Err(message)).completed == outcome.completed,
        read_with_counters(outcome, Err(message)).failure matches Some(failure) && failure.kind
            is Protocol && failure.message == message,
{
}

/// The transmitter is empty exactly where the line is idle and no byte is queued.
pub proof fn idle_transmitters_are_empty(queued: u32, idle: bool)
    requires
        queued < 0x8000_0000,
    ensures
        transmitter_idle((queued + if idle {
            0x8000_0000int
        } else {
            0
        }) as u32) <==> idle && queued == 0,
{
}

}
