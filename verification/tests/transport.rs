use std::collections::VecDeque;
use std::sync::atomic::{AtomicBool, Ordering};
use std::sync::Arc;

use glasgow_tool::error::Error;
use glasgow_tool::span::Span;
use glasgow_tool::transfer::{
    cancelled_outcome, closed_outcome, drain_step, flush_failed, io_outcome, DrainProgress,
};
use glasgow_tool::uart::{
    Counters, IoError, IoErrorKind, Metadata, Port, TransferFailureKind, TransferOutcome, Transport,
};
use parking_lot::Mutex;

struct FixedTransport {
    metadata: Metadata,
    reads: Mutex<VecDeque<TransferOutcome>>,
    writes: Mutex<VecDeque<TransferOutcome>>,
    submitted: Arc<AtomicBool>,
}

impl Transport for FixedTransport {
    fn metadata(&self) -> &Metadata {
        &self.metadata
    }

    fn read(&self, _buffer: &mut [u8]) -> TransferOutcome {
        self.reads
            .lock()
            .pop_front()
            .unwrap_or_else(|| TransferOutcome::complete(0))
    }

    fn write(&self, _data: &[u8]) -> TransferOutcome {
        self.writes.lock().pop_front().expect("configured write")
    }

    fn submit_tx(&self) {
        self.submitted.store(true, Ordering::Release);
    }

    fn drain(&self, timeout: Span) -> Result<(), Error> {
        if timeout == Span::zero() {
            return Err(Error::Timeout("no time".to_owned()));
        }
        Ok(())
    }

    fn cancel(&self) {}

    fn counters(&self) -> Counters {
        Counters::default()
    }
}

fn port_with(
    reads: Vec<TransferOutcome>,
    writes: Vec<TransferOutcome>,
) -> (Port<FixedTransport>, Arc<AtomicBool>) {
    let submitted = Arc::new(AtomicBool::new(false));
    let port = Port::new(FixedTransport {
        metadata: Metadata {
            backend: "test",
            serial: None,
            path: None,
            requested_baud: 115_200,
            actual_baud: 115_200,
            minimum_baud: 9_600,
            maximum_baud: 12_000_000,
        },
        reads: Mutex::new(reads.into_iter().collect()),
        writes: Mutex::new(writes.into_iter().collect()),
        submitted: Arc::clone(&submitted),
    });
    (port, submitted)
}

fn port_with_writes(
    outcomes: impl IntoIterator<Item = TransferOutcome>,
) -> (Port<FixedTransport>, Arc<AtomicBool>) {
    port_with(Vec::new(), outcomes.into_iter().collect())
}

#[test]
fn partial_completion_wins_over_failure_and_flush_submits() {
    let (mut port, submitted) = port_with_writes([TransferOutcome::failed(
        2,
        TransferFailureKind::Disconnected,
        "after bytes",
    )]);
    assert_eq!(port.write(b"abc").unwrap(), 2);
    port.flush().unwrap();
    assert!(submitted.load(Ordering::Acquire));
}

#[test]
fn status_free_zero_write_is_write_zero() {
    let (mut port, _) = port_with_writes([TransferOutcome::complete(0)]);
    assert_eq!(port.write(b"x").unwrap_err().kind(), IoErrorKind::WriteZero);
}

#[test]
fn reads_reject_impossible_counts_and_report_failures() {
    let (mut port, _) = port_with(
        vec![
            TransferOutcome::complete(3),
            TransferOutcome::complete(9),
            TransferOutcome::failed(0, TransferFailureKind::TimedOut, "late"),
            TransferOutcome::failed(0, TransferFailureKind::Access, "denied"),
        ],
        Vec::new(),
    );
    let mut buffer = [0_u8; 4];
    assert_eq!(port.read(&mut buffer).unwrap(), 3);
    assert_eq!(
        port.read(&mut buffer).unwrap_err().kind(),
        IoErrorKind::InvalidData
    );
    let late = port.read(&mut buffer).unwrap_err();
    assert_eq!(late.kind(), IoErrorKind::TimedOut);
    assert_eq!(late.message(), "late");
    assert_eq!(
        port.read(&mut buffer).unwrap_err().kind(),
        IoErrorKind::PermissionDenied
    );
}

#[test]
fn ports_pass_through_to_their_transport() {
    let (port, _) = port_with_writes([]);
    let other = port.clone();
    assert_eq!(other.metadata().backend, "test");
    assert_eq!(other.counters(), Counters::default());
    assert!(port.drain(Span::from_millis(1)).is_ok());
    assert_eq!(port.drain(Span::zero()).unwrap_err().message(), "no time");
    port.cancel();
}

#[test]
fn device_errors_map_to_transfer_failures() {
    let cases = [
        (IoErrorKind::Interrupted, TransferFailureKind::Interrupted),
        (IoErrorKind::WouldBlock, TransferFailureKind::WouldBlock),
        (IoErrorKind::TimedOut, TransferFailureKind::TimedOut),
        (IoErrorKind::PermissionDenied, TransferFailureKind::Access),
        (IoErrorKind::BrokenPipe, TransferFailureKind::Disconnected),
        (IoErrorKind::NotConnected, TransferFailureKind::Disconnected),
        (IoErrorKind::UnexpectedEof, TransferFailureKind::Disconnected),
        (IoErrorKind::Other, TransferFailureKind::Protocol),
    ];
    for (io, kind) in cases {
        let outcome = io_outcome(Err(IoError::new(io, "why".to_owned())));
        let failure = outcome.failure.unwrap();
        assert_eq!(outcome.completed, 0);
        assert_eq!(failure.kind, kind);
        assert_eq!(failure.message, "why");
    }
    assert_eq!(io_outcome(Ok(7)).completed, 7);
    assert_eq!(cancelled_outcome().failure.unwrap().message, "cancelled");
    assert_eq!(
        closed_outcome().failure.unwrap().kind,
        TransferFailureKind::Disconnected
    );
}

#[test]
fn drains_report_what_did_not_finish() {
    let timeout = Span::from_millis(1500);
    let late = IoError::new(IoErrorKind::TimedOut, "x".to_owned());
    assert_eq!(
        flush_failed("FTDI USB", timeout, &late).message(),
        "FTDI USB drain exceeded 1500 ms"
    );
    let broken = IoError::new(IoErrorKind::BrokenPipe, "gone".to_owned());
    assert_eq!(
        flush_failed("FTDI USB", timeout, &broken).message(),
        "FTDI USB drain failed: gone"
    );
    assert!(matches!(
        drain_step(true, true, "port", timeout),
        DrainProgress::Done
    ));
    assert!(matches!(
        drain_step(false, false, "port", timeout),
        DrainProgress::Wait
    ));
    match drain_step(false, true, "port", timeout) {
        DrainProgress::Overdue(error) => {
            assert_eq!(error.message(), "port did not drain within 1500 ms");
        }
        _ => panic!("not overdue"),
    }
}
