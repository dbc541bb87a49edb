use std::collections::VecDeque;
use std::sync::atomic::{AtomicBool, AtomicUsize, Ordering};
use std::sync::Arc;

use glasgow_tool::error::{Category, Error};
use glasgow_tool::session::SessionOptions as ToolOptions;
use glasgow_tool::span::Span;
use glasgow_tool::uart::telemetry::{final_event, session_event};
use glasgow_tool::uart::worker::{
    RxAction, RxEvent, RxWorker, SubmitPolicy, TxAction, TxEvent, TxWorker, WorkerEvent,
    APPLICATION_QUEUE_BYTES,
};
use glasgow_tool::uart::{
    CancellationToken, Coordinator, Counters, Metadata, NdjsonObserver, NoopObserver, Port,
    SessionEvent, SessionMode, SessionObserver, SessionOptions, SessionPhase, SessionReport,
    SessionStatistics, StopReason, TransferFailureKind, TransferOutcome, Transport,
};
use parking_lot::Mutex;

/// Runs both workers and the coordinator in turn, a millisecond at a time.
fn simulate<T: Transport>(
    port: Port<T>,
    mut input: impl FnMut() -> Vec<u8>,
    output: Arc<Mutex<Vec<u8>>>,
    options: SessionOptions,
    submit: SubmitPolicy,
    observer: &mut dyn SessionObserver,
) -> Result<SessionReport, Error> {
    let transport = port.into_transport();
    let transport = transport.as_ref();
    let token = options.cancellation.clone();
    let mut tx = TxWorker::new(options.mode, submit, options.drain_timeout);
    let mut rx = RxWorker::new(APPLICATION_QUEUE_BYTES);
    let mut coordinator =
        Coordinator::new(options.mode, options.rx_idle_timeout, options.drain_timeout);
    let mut events: VecDeque<WorkerEvent> = VecDeque::new();
    let mut chunk: Vec<u8> = Vec::new();
    let mut buffer = vec![0_u8; APPLICATION_QUEUE_BYTES];
    let mut now: u64 = 0;
    let mut last_rx: u64 = 0;
    let mut tx_gone = false;
    let mut rx_gone = false;
    let statistics = |tx: &TxWorker, rx: &RxWorker| SessionStatistics {
        tx_bytes_accepted: tx.accepted,
        tx_bytes_completed: tx.completed,
        rx_bytes: rx.received,
    };

    observer.observe(&session_event(
        transport,
        SessionPhase::Running,
        SessionStatistics::default(),
        None,
        None,
    ))?;

    while coordinator.running() {
        assert!(now < 60_000, "the session does not end");
        let reported = match tx.action() {
            TxAction::CheckCancelled => tx.advance(TxEvent::CancelFlag(token.is_cancelled())),
            TxAction::ReadInput => {
                chunk = input();
                tx.advance(TxEvent::Input(&chunk))
            }
            TxAction::Echo { length } => {
                output.lock().extend_from_slice(&chunk[..length]);
                tx.advance(TxEvent::Echoed)
            }
            TxAction::Write { start, end } => {
                let outcome = transport.write(&chunk[start..end]);
                tx.advance(TxEvent::Written(outcome))
            }
            TxAction::Pause => tx.advance(TxEvent::Paused),
            TxAction::Submit => {
                transport.submit_tx();
                tx.advance(TxEvent::Submitted)
            }
            TxAction::Drain { timeout } => match transport.drain(timeout) {
                Ok(()) => tx.advance(TxEvent::Drained),
                Err(error) => tx.advance(TxEvent::DrainFailed(error)),
            },
            TxAction::Stop => {
                if !tx_gone {
                    tx_gone = true;
                    events.push_back(WorkerEvent::TxStopped);
                }
                None
            }
        };
        events.extend(reported);
        match rx.action() {
            RxAction::CheckCancelled => {
                rx.advance(RxEvent::CancelFlag(token.is_cancelled()));
            }
            RxAction::Read => {
                let outcome = transport.read(&mut buffer);
                let report = rx.advance(RxEvent::Received(outcome));
                events.extend(report.failure.map(WorkerEvent::WorkerError));
            }
            RxAction::Deliver { length } => {
                output.lock().extend_from_slice(&buffer[..length]);
                let report = rx.advance(RxEvent::Delivered);
                if report.activity {
                    last_rx = now;
                    events.push_back(WorkerEvent::RxActivity);
                }
                events.extend(report.failure.map(WorkerEvent::WorkerError));
            }
            RxAction::Pause => {
                rx.advance(RxEvent::Paused);
            }
            RxAction::Stop => {
                if !rx_gone {
                    rx_gone = true;
                    events.push_back(WorkerEvent::RxStopped);
                }
            }
        }
        let moment = Span::from_millis(now);
        let commands = coordinator.tick(moment, token.is_cancelled(), Span::from_millis(last_rx));
        if commands.raise_cancelled {
            token.cancel();
        }
        if commands.cancel_transport {
            transport.cancel();
        }
        if let Some(event) = events.pop_front() {
            let refusal = match &event {
                WorkerEvent::TxDrained(reason) if coordinator.observes(&event) => observer
                    .observe(&session_event(
                        transport,
                        SessionPhase::Draining,
                        statistics(&tx, &rx),
                        Some(*reason),
                        None,
                    ))
                    .err(),
                _ => None,
            };
            let commands = coordinator.handle(moment, event, refusal);
            if commands.raise_cancelled {
                token.cancel();
            }
            if commands.cancel_transport {
                transport.cancel();
            }
        }
        now += 1;
    }
    coordinator.join(false, false);
    let conclusion = coordinator.conclude();
    let totals = statistics(&tx, &rx);
    let refusal = match final_event(transport, totals, &conclusion) {
        Some(event) => observer.observe(&event).err(),
        None => None,
    };
    conclusion.result(refusal, totals, transport.counters())
}

struct BufferedState {
    pending: Mutex<VecDeque<u8>>,
    transmitted: Mutex<Vec<u8>>,
    received: AtomicUsize,
    cancelled: AtomicBool,
}

struct BufferedLoopback {
    metadata: Metadata,
    state: Arc<BufferedState>,
}

impl Transport for BufferedLoopback {
    fn metadata(&self) -> &Metadata {
        &self.metadata
    }

    fn read(&self, _buffer: &mut [u8]) -> TransferOutcome {
        TransferOutcome::failed(0, TransferFailureKind::TimedOut, "idle")
    }

    fn write(&self, data: &[u8]) -> TransferOutcome {
        self.state.pending.lock().extend(data);
        TransferOutcome::complete(data.len())
    }

    fn submit_tx(&self) {
        let mut pending = self.state.pending.lock();
        let count = pending.len();
        self.state.transmitted.lock().extend(pending.drain(..));
        self.state.received.fetch_add(count, Ordering::Release);
    }

    fn drain(&self, _timeout: Span) -> Result<(), Error> {
        self.submit_tx();
        Ok(())
    }

    fn cancel(&self) {
        self.state.cancelled.store(true, Ordering::Release);
    }

    fn counters(&self) -> Counters {
        Counters::default()
    }
}

#[test]
fn console_echoes_and_transmits_ctrl_backslash_before_ctrl_bracket_exit() {
    let state = Arc::new(BufferedState {
        pending: Mutex::new(VecDeque::new()),
        transmitted: Mutex::new(Vec::new()),
        received: AtomicUsize::new(0),
        cancelled: AtomicBool::new(false),
    });
    let port = Port::new(BufferedLoopback {
        metadata: Metadata {
            backend: "glasgow",
            serial: Some("test".to_owned()),
            path: None,
            requested_baud: 115_200,
            actual_baud: 115_107,
            minimum_baud: 9_600,
            maximum_baud: 12_000_000,
        },
        state: Arc::clone(&state),
    });
    let observed_before_exit = Arc::new(AtomicBool::new(false));
    let output = Arc::new(Mutex::new(Vec::new()));
    let mut presses = 0;
    let input = {
        let state = Arc::clone(&state);
        let output = Arc::clone(&output);
        let observed = Arc::clone(&observed_before_exit);
        move || {
            presses += 1;
            match presses {
                1 => vec![b'x', 0x1c],
                2 => {
                    observed.store(
                        state.received.load(Ordering::Acquire) == 2
                            && output.lock().as_slice() == [b'x', 0x1c],
                        Ordering::Release,
                    );
                    vec![0x1d]
                }
                _ => Vec::new(),
            }
        }
    };
    let mut options = SessionOptions::console();
    options.drain_timeout = Span::from_millis(200);

    let report = simulate(
        port,
        input,
        Arc::clone(&output),
        options,
        SubmitPolicy::EveryChunk,
        &mut NoopObserver,
    )
    .unwrap();

    assert!(observed_before_exit.load(Ordering::Acquire));
    assert_eq!(output.lock().as_slice(), [b'x', 0x1c]);
    assert_eq!(state.transmitted.lock().as_slice(), [b'x', 0x1c]);
    assert_eq!(report.statistics.tx_bytes_accepted, 2);
    assert_eq!(report.statistics.tx_bytes_completed, 2);
    assert_eq!(report.reason, StopReason::ConsoleEscape);
    assert!(state.cancelled.load(Ordering::Acquire));
}

struct PartialState {
    bytes: Mutex<VecDeque<u8>>,
    pending: Mutex<VecDeque<u8>>,
    writes: AtomicUsize,
    submits: AtomicUsize,
    drains: AtomicUsize,
    cancelled: AtomicBool,
}

struct PartialLoopback {
    metadata: Metadata,
    state: Arc<PartialState>,
}

impl Transport for PartialLoopback {
    fn metadata(&self) -> &Metadata {
        &self.metadata
    }

    fn read(&self, buffer: &mut [u8]) -> TransferOutcome {
        let mut bytes = self.state.bytes.lock();
        let count = bytes.len().min(buffer.len());
        for target in &mut buffer[..count] {
            *target = bytes.pop_front().expect("checked buffered length");
        }
        if count == 0 {
            TransferOutcome::failed(0, TransferFailureKind::TimedOut, "idle")
        } else {
            TransferOutcome::complete(count)
        }
    }

    fn write(&self, data: &[u8]) -> TransferOutcome {
        let count = data.len().min(3);
        self.state.pending.lock().extend(&data[..count]);
        if self.state.writes.fetch_add(1, Ordering::Relaxed) == 0 {
            TransferOutcome::failed(count, TransferFailureKind::Interrupted, "partial")
        } else {
            TransferOutcome::complete(count)
        }
    }

    fn submit_tx(&self) {
        let mut pending = self.state.pending.lock();
        self.state.bytes.lock().extend(pending.drain(..));
        self.state.submits.fetch_add(1, Ordering::Release);
    }

    fn drain(&self, _timeout: Span) -> Result<(), Error> {
        self.submit_tx();
        self.state.drains.fetch_add(1, Ordering::Relaxed);
        Ok(())
    }

    fn cancel(&self) {
        self.state.cancelled.store(true, Ordering::Release);
    }

    fn counters(&self) -> Counters {
        Counters::default()
    }
}

fn partial_loopback() -> (Port<PartialLoopback>, Arc<PartialState>) {
    let state = Arc::new(PartialState {
        bytes: Mutex::new(VecDeque::new()),
        pending: Mutex::new(VecDeque::new()),
        writes: AtomicUsize::new(0),
        submits: AtomicUsize::new(0),
        drains: AtomicUsize::new(0),
        cancelled: AtomicBool::new(false),
    });
    let port = Port::new(PartialLoopback {
        metadata: Metadata {
            backend: "usb",
            serial: Some("test".to_owned()),
            path: None,
            requested_baud: 115_200,
            actual_baud: 115_246,
            minimum_baud: 9_600,
            maximum_baud: 12_000_000,
        },
        state: Arc::clone(&state),
    });
    (port, state)
}

#[test]
fn stream_accounts_partial_completion_then_drains_and_waits_for_idle() {
    let payload = b"partial USB completion survives retries".to_vec();
    let captured = Arc::new(Mutex::new(Vec::new()));
    let submitted_before_eof = Arc::new(AtomicBool::new(false));
    let (port, state) = partial_loopback();
    let mut options = SessionOptions::stream();
    options.rx_idle_timeout = Span::from_millis(20);
    options.drain_timeout = Span::from_millis(200);

    let mut source = Some(payload.clone());
    let input = {
        let state = Arc::clone(&state);
        let submitted = Arc::clone(&submitted_before_eof);
        move || match source.take() {
            Some(payload) => payload,
            None => {
                submitted.store(state.submits.load(Ordering::Acquire) != 0, Ordering::Release);
                Vec::new()
            }
        }
    };
    let report = simulate(
        port,
        input,
        Arc::clone(&captured),
        options,
        SubmitPolicy::EveryChunk,
        &mut NoopObserver,
    )
    .unwrap();

    assert_eq!(*captured.lock(), payload);
    assert_eq!(report.statistics.tx_bytes_accepted, payload.len() as u64);
    assert_eq!(report.statistics.tx_bytes_completed, payload.len() as u64);
    assert_eq!(report.statistics.rx_bytes, payload.len() as u64);
    assert_eq!(report.reason, StopReason::RxIdle);
    assert_eq!(state.drains.load(Ordering::Relaxed), 1);
    assert!(state.cancelled.load(Ordering::Acquire));
    assert!(submitted_before_eof.load(Ordering::Acquire));
}

#[test]
fn console_only_submission_leaves_stream_data_to_the_drain() {
    let (port, state) = partial_loopback();
    let submitted_before_eof = Arc::new(AtomicBool::new(true));
    let captured = Arc::new(Mutex::new(Vec::new()));
    let mut options = SessionOptions::stream();
    options.rx_idle_timeout = Span::from_millis(20);
    let mut source = Some(b"held back".to_vec());
    let input = {
        let state = Arc::clone(&state);
        let submitted = Arc::clone(&submitted_before_eof);
        move || match source.take() {
            Some(payload) => payload,
            None => {
                submitted.store(state.submits.load(Ordering::Acquire) != 0, Ordering::Release);
                Vec::new()
            }
        }
    };
    let report = simulate(
        port,
        input,
        Arc::clone(&captured),
        options,
        SubmitPolicy::ConsoleOnly,
        &mut NoopObserver,
    )
    .unwrap();
    assert!(!submitted_before_eof.load(Ordering::Acquire));
    assert_eq!(*captured.lock(), b"held back");
    assert_eq!(report.statistics.tx_bytes_completed, 9);
}

struct Loopback {
    metadata: Metadata,
    wire: Arc<Mutex<Vec<u8>>>,
    receive: Mutex<VecDeque<u8>>,
    echo_rx: bool,
    cancelled: AtomicBool,
    counters: Counters,
}

impl Transport for Loopback {
    fn metadata(&self) -> &Metadata {
        &self.metadata
    }

    fn read(&self, buffer: &mut [u8]) -> TransferOutcome {
        if self.cancelled.load(Ordering::Acquire) {
            return TransferOutcome::failed(0, TransferFailureKind::TimedOut, "cancelled");
        }
        let mut receive = self.receive.lock();
        let completed = receive.len().min(buffer.len());
        for target in &mut buffer[..completed] {
            *target = receive.pop_front().expect("checked receive length");
        }
        if completed == 0 {
            TransferOutcome::failed(0, TransferFailureKind::TimedOut, "idle")
        } else {
            TransferOutcome::complete(completed)
        }
    }

    fn write(&self, data: &[u8]) -> TransferOutcome {
        self.wire.lock().extend_from_slice(data);
        if self.echo_rx {
            self.receive.lock().extend(data);
        }
        TransferOutcome::complete(data.len())
    }

    fn drain(&self, _timeout: Span) -> Result<(), Error> {
        Ok(())
    }

    fn cancel(&self) {
        self.cancelled.store(true, Ordering::Release);
    }

    fn counters(&self) -> Counters {
        self.counters
    }
}

fn loopback(
    backend: &'static str,
    echo_rx: bool,
    counters: Counters,
) -> (Port<Loopback>, Arc<Mutex<Vec<u8>>>) {
    let wire = Arc::new(Mutex::new(Vec::new()));
    let port = Port::new(Loopback {
        metadata: Metadata {
            backend,
            serial: Some("TEST123".to_owned()),
            path: Some("test-path".to_owned()),
            requested_baud: 115_200,
            actual_baud: 115_246,
            minimum_baud: 9_600,
            maximum_baud: 12_000_000,
        },
        wire: Arc::clone(&wire),
        receive: Mutex::new(VecDeque::new()),
        echo_rx,
        cancelled: AtomicBool::new(false),
        counters,
    });
    (port, wire)
}

fn once(payload: Vec<u8>) -> impl FnMut() -> Vec<u8> {
    let mut source = Some(payload);
    move || source.take().unwrap_or_default()
}

#[derive(Default)]
struct PhaseObserver(Vec<SessionPhase>);

impl SessionObserver for PhaseObserver {
    fn observe(&mut self, event: &SessionEvent<'_>) -> Result<(), Error> {
        self.0.push(event.phase);
        Ok(())
    }
}

#[test]
fn stream_then_console_use_independent_cancellation_tokens() {
    let stream_payload = b"stream payload".to_vec();
    let (stream_port, stream_wire) = loopback("usb", true, Counters::default());
    let stream_capture = Arc::new(Mutex::new(Vec::new()));
    let stream_token = CancellationToken::new();
    let mut stream_options = SessionOptions::stream();
    stream_options.rx_idle_timeout = Span::from_millis(20);
    stream_options.drain_timeout = Span::from_millis(200);
    stream_options.cancellation = stream_token;
    let mut stream_observer = PhaseObserver::default();

    let stream_report = simulate(
        stream_port,
        once(stream_payload.clone()),
        Arc::clone(&stream_capture),
        stream_options,
        SubmitPolicy::EveryChunk,
        &mut stream_observer,
    )
    .unwrap();

    assert_eq!(*stream_wire.lock(), stream_payload);
    assert_eq!(*stream_capture.lock(), stream_payload);
    assert_eq!(
        stream_report.statistics.tx_bytes_accepted,
        stream_payload.len() as u64
    );
    assert_eq!(
        stream_report.statistics.tx_bytes_completed,
        stream_payload.len() as u64
    );
    assert_eq!(
        stream_report.statistics.rx_bytes,
        stream_payload.len() as u64
    );
    assert_eq!(stream_report.reason, StopReason::RxIdle);
    assert_eq!(
        stream_observer.0,
        [
            SessionPhase::Running,
            SessionPhase::Draining,
            SessionPhase::Final
        ]
    );

    let console_payload = vec![b'K', 0x1c];
    let mut console_input = console_payload.clone();
    console_input.push(0x1d);
    let (console_port, console_wire) = loopback("glasgow", false, Counters::default());
    let console_capture = Arc::new(Mutex::new(Vec::new()));
    let console_token = CancellationToken::new();
    assert!(!console_token.is_cancelled());
    let mut console_options = SessionOptions::console();
    console_options.drain_timeout = Span::from_millis(200);
    console_options.cancellation = console_token;
    let mut console_observer = PhaseObserver::default();

    let console_report = simulate(
        console_port,
        once(console_input),
        Arc::clone(&console_capture),
        console_options,
        SubmitPolicy::EveryChunk,
        &mut console_observer,
    )
    .unwrap();

    assert_eq!(*console_wire.lock(), console_payload);
    assert_eq!(*console_capture.lock(), console_payload);
    assert_eq!(console_report.statistics.tx_bytes_accepted, 2);
    assert_eq!(console_report.statistics.tx_bytes_completed, 2);
    assert_eq!(console_report.statistics.rx_bytes, 0);
    assert_eq!(console_report.reason, StopReason::ConsoleEscape);
    assert_eq!(
        console_observer.0,
        [
            SessionPhase::Running,
            SessionPhase::Draining,
            SessionPhase::Final
        ]
    );
}

/// Writes each record of an [`NdjsonObserver`] as one JSON line.
struct JsonLines(NdjsonObserver<Vec<u8>>);

impl SessionObserver for JsonLines {
    fn observe(&mut self, event: &SessionEvent<'_>) -> Result<(), Error> {
        let record = self.0.record(self.0.elapsed_ns(), event);
        let mut fields = serde_json::Map::new();
        let mut put = |name: &str, value: serde_json::Value| {
            fields.insert(name.to_owned(), value);
        };
        put("schema_version", record.schema_version.into());
        put("monotonic_ns", record.monotonic_ns.into());
        put("tool", record.tool.into());
        put("backend", record.backend.into());
        if let Some(serial) = record.selected_serial {
            put("selected_serial", serial.into());
        }
        if let Some(path) = record.selected_path {
            put("selected_path", path.into());
        }
        put("requested_baud", record.requested_baud.into());
        put("actual_baud", record.actual_baud.into());
        put(
            "phase",
            match record.phase {
                SessionPhase::Running => "running",
                SessionPhase::Draining => "draining",
                SessionPhase::Final => "final",
            }
            .into(),
        );
        put("tx_bytes_accepted", record.tx_bytes_accepted.into());
        put("tx_bytes_completed", record.tx_bytes_completed.into());
        put("rx_bytes", record.rx_bytes.into());
        let mut hardware = serde_json::Map::new();
        hardware.insert("rx_errors".to_owned(), record.hardware.rx_errors.into());
        hardware.insert("rx_overflow".to_owned(), record.hardware.rx_overflow.into());
        put("hardware", serde_json::Value::Object(hardware));
        if let Some(reason) = record.reason {
            put("reason", reason.into());
        }
        if let Some(code) = record.exit_code {
            put("exit_code", code.into());
        }
        let mut line = serde_json::Value::Object(fields).to_string().into_bytes();
        line.push(b'\n');
        self.0.writer().extend(line);
        Ok(())
    }
}

#[test]
fn ndjson_observer_preserves_schema_and_final_status() {
    let payload = b"telemetry".to_vec();
    let counters = Counters {
        rx_errors: 2,
        rx_overflow: 3,
    };
    let (port, _) = loopback("usb", true, counters);
    let mut options = SessionOptions::stream();
    options.rx_idle_timeout = Span::from_millis(20);
    options.drain_timeout = Span::from_millis(200);
    let mut observer = JsonLines(NdjsonObserver::new(Vec::new(), "consumer-test"));

    let report = simulate(
        port,
        once(payload.clone()),
        Arc::new(Mutex::new(Vec::new())),
        options,
        SubmitPolicy::EveryChunk,
        &mut observer,
    )
    .unwrap();
    let records = String::from_utf8(observer.0.into_inner())
        .unwrap()
        .lines()
        .map(|line| serde_json::from_str::<serde_json::Value>(line).unwrap())
        .collect::<Vec<_>>();

    assert_eq!(records.len(), 3);
    assert_eq!(records[0]["phase"], "running");
    assert_eq!(records[1]["phase"], "draining");
    assert_eq!(records[2]["phase"], "final");
    for record in &records {
        assert_eq!(record["schema_version"], 1);
        assert_eq!(record["tool"], "consumer-test");
        assert_eq!(record["backend"], "usb");
        assert_eq!(record["selected_serial"], "TEST123");
        assert_eq!(record["selected_path"], "test-path");
        assert_eq!(record["requested_baud"], 115_200);
        assert_eq!(record["actual_baud"], 115_246);
        assert_eq!(record["hardware"]["rx_errors"], 2);
        assert_eq!(record["hardware"]["rx_overflow"], 3);
    }
    assert_eq!(records[1]["reason"], "rx_idle");
    assert_eq!(records[2]["reason"], "rx_idle");
    assert_eq!(records[2]["exit_code"], 0);
    assert_eq!(records[2]["tx_bytes_accepted"], payload.len());
    assert_eq!(records[2]["tx_bytes_completed"], payload.len());
    assert_eq!(records[2]["rx_bytes"], payload.len());
    assert_eq!(report.hardware, counters);
    assert!(records[0].get("exit_code").is_none());
    assert!(records[0].get("reason").is_none());
}

#[test]
fn a_cancelled_session_times_out_with_the_cancelled_reason() {
    struct Notes(Vec<(SessionPhase, Option<StopReason>, Option<Category>)>);
    impl SessionObserver for Notes {
        fn observe(&mut self, event: &SessionEvent<'_>) -> Result<(), Error> {
            self.0.push((
                event.phase,
                event.stop_reason,
                event.error.map(|error| error.category()),
            ));
            Ok(())
        }
    }
    let (port, wire) = loopback("usb", false, Counters::default());
    let options = SessionOptions::stream();
    let token = options.cancellation.clone();
    token.cancel();
    assert!(token.is_cancelled());
    let mut notes = Notes(Vec::new());
    let error = simulate(
        port,
        once(b"never sent".to_vec()),
        Arc::new(Mutex::new(Vec::new())),
        options,
        SubmitPolicy::EveryChunk,
        &mut notes,
    )
    .unwrap_err();
    assert_eq!(error.category(), Category::Timeout);
    assert_eq!(error.message(), "session cancelled by signal");
    assert!(wire.lock().is_empty());
    assert_eq!(
        notes.0.last(),
        Some(&(
            SessionPhase::Final,
            Some(StopReason::Cancelled),
            Some(Category::Timeout)
        ))
    );
}

#[test]
fn an_observer_that_refuses_is_told_nothing_more() {
    struct Refuses(usize);
    impl SessionObserver for Refuses {
        fn observe(&mut self, event: &SessionEvent<'_>) -> Result<(), Error> {
            self.0 += 1;
            if event.phase == SessionPhase::Draining {
                return Err(Error::Access("log is full".to_owned()));
            }
            Ok(())
        }
    }
    let (port, _) = loopback("usb", true, Counters::default());
    let mut observer = Refuses(0);
    let error = simulate(
        port,
        once(b"bytes".to_vec()),
        Arc::new(Mutex::new(Vec::new())),
        SessionOptions::stream(),
        SubmitPolicy::EveryChunk,
        &mut observer,
    )
    .unwrap_err();
    assert_eq!(error.message(), "log is full");
    assert_eq!(observer.0, 2);
}

struct Broken {
    metadata: Metadata,
    read: fn() -> TransferOutcome,
    write: fn(usize) -> TransferOutcome,
    drain: fn() -> Result<(), Error>,
}

impl Transport for Broken {
    fn metadata(&self) -> &Metadata {
        &self.metadata
    }

    fn read(&self, _buffer: &mut [u8]) -> TransferOutcome {
        (self.read)()
    }

    fn write(&self, data: &[u8]) -> TransferOutcome {
        (self.write)(data.len())
    }

    fn drain(&self, _timeout: Span) -> Result<(), Error> {
        (self.drain)()
    }

    fn cancel(&self) {}

    fn counters(&self) -> Counters {
        Counters::default()
    }
}

fn idle() -> TransferOutcome {
    TransferOutcome::failed(0, TransferFailureKind::TimedOut, "idle")
}

fn failing_session(
    read: fn() -> TransferOutcome,
    write: fn(usize) -> TransferOutcome,
    drain: fn() -> Result<(), Error>,
) -> Error {
    let port = Port::new(Broken {
        metadata: Metadata {
            backend: "test",
            serial: None,
            path: None,
            requested_baud: 9_600,
            actual_baud: 9_600,
            minimum_baud: 9_600,
            maximum_baud: 12_000_000,
        },
        read,
        write,
        drain,
    });
    simulate(
        port,
        once(b"data".to_vec()),
        Arc::new(Mutex::new(Vec::new())),
        SessionOptions::stream(),
        SubmitPolicy::EveryChunk,
        &mut NoopObserver,
    )
    .unwrap_err()
}

#[test]
fn worker_errors_end_the_session() {
    let error = failing_session(
        || TransferOutcome::failed(0, TransferFailureKind::Disconnected, "gone"),
        TransferOutcome::complete,
        || Ok(()),
    );
    assert_eq!(error.category(), Category::Access);
    assert_eq!(error.message(), "gone");

    let error = failing_session(
        || TransferOutcome::complete(0),
        TransferOutcome::complete,
        || Ok(()),
    );
    assert_eq!(error.category(), Category::Protocol);
    assert_eq!(
        error.message(),
        "transport completed a zero-length RX without status"
    );

    let error = failing_session(idle, |_| TransferOutcome::complete(0), || Ok(()));
    assert_eq!(
        error.message(),
        "transport completed a zero-length TX without status"
    );

    let error = failing_session(
        idle,
        |length| TransferOutcome::complete(length + 1),
        || Ok(()),
    );
    assert_eq!(
        error.message(),
        "transport reported more TX bytes than submitted"
    );

    let error = failing_session(
        || TransferOutcome::complete(APPLICATION_QUEUE_BYTES + 1),
        TransferOutcome::complete,
        || Ok(()),
    );
    assert_eq!(
        error.message(),
        "transport reported more RX bytes than buffer capacity"
    );

    let error = failing_session(idle, TransferOutcome::complete, || {
        Err(Error::Timeout("still busy".to_owned()))
    });
    assert_eq!(error.category(), Category::Timeout);
    assert_eq!(error.message(), "still busy");
}

#[test]
fn overdue_workers_are_reported_once_the_drain_timeout_has_passed() {
    let mut coordinator = Coordinator::new(
        SessionMode::Stream,
        Span::from_secs(2),
        Span::from_millis(200),
    );
    let failed = WorkerEvent::TxDrained(StopReason::Cancelled);
    let commands = coordinator.handle(Span::from_millis(10), failed, None);
    assert!(commands.raise_cancelled && commands.cancel_transport);
    let early = coordinator.tick(Span::from_millis(209), true, Span::zero());
    assert!(!early.cancel_transport);
    let late = coordinator.tick(Span::from_millis(210), true, Span::zero());
    assert!(late.cancel_transport && !late.raise_cancelled);
    let result = coordinator.conclude().result(
        None,
        SessionStatistics::default(),
        Counters::default(),
    );
    let error = result.unwrap_err();
    assert_eq!(error.category(), Category::Timeout);
    assert_eq!(
        error.message(),
        "workers did not stop within the configured drain timeout"
    );
}

#[test]
fn an_idle_stream_keeps_its_deadline() {
    let mut coordinator = Coordinator::new(
        SessionMode::Stream,
        Span::from_millis(20),
        Span::from_millis(200),
    );
    coordinator.handle(Span::zero(), WorkerEvent::TxDrained(StopReason::RxIdle), None);
    let idle = coordinator.tick(Span::from_millis(20), false, Span::zero());
    assert!(idle.raise_cancelled && idle.cancel_transport);
    for millis in [40, 120, 219] {
        coordinator.tick(Span::from_millis(millis), true, Span::zero());
        assert!(coordinator.failure.is_none());
    }
    coordinator.tick(Span::from_millis(220), true, Span::zero());
    coordinator.handle(Span::from_secs(60), WorkerEvent::RxStopped, None);
    let error = coordinator
        .conclude()
        .result(None, SessionStatistics::default(), Counters::default())
        .unwrap_err();
    assert_eq!(
        error.message(),
        "workers did not stop within the configured drain timeout"
    );
}

#[test]
fn cancellation_tokens_share_their_flag_with_their_clones_alone() {
    let options = SessionOptions::stream();
    let other = SessionOptions::console();
    let handle = options.clone().cancellation;
    handle.clone().cancel();
    assert!(options.cancellation.is_cancelled() && handle.is_cancelled());
    assert!(!other.cancellation.is_cancelled());
    assert!(!CancellationToken::default().is_cancelled());
}

#[test]
fn panicked_workers_fail_a_session_that_had_not_failed() {
    let mut coordinator =
        Coordinator::new(SessionMode::Console, Span::from_secs(2), Span::from_secs(5));
    coordinator.join(false, true);
    let error = coordinator
        .conclude()
        .result(None, SessionStatistics::default(), Counters::default())
        .unwrap_err();
    assert_eq!(error.message(), "RX worker panicked");
}

#[test]
fn stop_reasons_have_stable_spellings() {
    assert_eq!(StopReason::RxIdle.as_str(), "rx_idle");
    assert_eq!(StopReason::ConsoleEscape.as_str(), "console_escape");
    assert_eq!(StopReason::Cancelled.as_str(), "cancelled");
}

#[test]
fn session_defaults_are_two_and_five_seconds() {
    for options in [SessionOptions::console(), SessionOptions::stream()] {
        assert_eq!(options.rx_idle_timeout, Span::from_secs(2));
        assert_eq!(options.drain_timeout, Span::from_secs(5));
        assert!(!options.cancellation.is_cancelled());
    }
    assert_eq!(SessionOptions::console().mode, SessionMode::Console);
    assert_eq!(SessionOptions::stream().mode, SessionMode::Stream);
    let options = ToolOptions::console();
    assert_eq!(options.mode, SessionMode::Console);
    assert_eq!(options.rx_idle_timeout, Span::from_secs(2));
    let options = ToolOptions::stream(Span::from_millis(1), Span::from_millis(3));
    assert_eq!(options.mode, SessionMode::Stream);
    assert_eq!(options.drain_timeout, Span::from_millis(3));
}

#[test]
fn a_receiver_that_stops_has_delivered_what_arrived() {
    let mut worker = RxWorker::new(8);
    worker.advance(RxEvent::CancelFlag(false));
    let outcome = TransferOutcome::failed(3, TransferFailureKind::Disconnected, "gone");
    let report = worker.advance(RxEvent::Received(outcome));
    assert!(!report.activity && report.failure.is_none());
    assert_eq!(worker.action(), RxAction::Deliver { length: 3 });
    let report = worker.advance(RxEvent::Delivered);
    assert!(report.activity);
    assert_eq!(report.failure.unwrap().message(), "gone");
    assert_eq!(worker.received, 3);
    assert_eq!(worker.action(), RxAction::Stop);
}

#[test]
fn a_cancelled_transmitter_gives_up_the_rest_of_its_chunk() {
    let timeout = Span::from_millis(7);
    let mut worker = TxWorker::new(SessionMode::Console, SubmitPolicy::EveryChunk, timeout);
    worker.advance(TxEvent::CancelFlag(false));
    worker.advance(TxEvent::Input(b"abcd\x1d"));
    assert_eq!(worker.action(), TxAction::Echo { length: 4 });
    worker.advance(TxEvent::Echoed);
    worker.advance(TxEvent::CancelFlag(false));
    assert_eq!(worker.action(), TxAction::Write { start: 0, end: 4 });
    worker.advance(TxEvent::Written(TransferOutcome::complete(3)));
    worker.advance(TxEvent::CancelFlag(true));
    assert_eq!(worker.action(), TxAction::Submit);
    worker.advance(TxEvent::Submitted);
    assert_eq!(worker.action(), TxAction::Drain { timeout });
    let report = worker.advance(TxEvent::Drained);
    assert!(matches!(
        report,
        Some(WorkerEvent::TxDrained(StopReason::ConsoleEscape))
    ));
    assert_eq!((worker.accepted, worker.completed), (3, 3));
    assert_eq!(worker.action(), TxAction::Stop);
}

#[test]
fn a_refused_start_ends_the_session_before_its_workers() {
    let (quiet, drain) = (Span::from_secs(2), Span::from_secs(5));
    let refusal = Error::Access("event log write failed: full".to_owned());
    let error = Coordinator::begin(SessionMode::Stream, quiet, drain, Some(refusal)).unwrap_err();
    assert_eq!(error.message(), "event log write failed: full");
    let coordinator = Coordinator::begin(SessionMode::Stream, quiet, drain, None).unwrap();
    assert!(coordinator.running() && coordinator.failure.is_none());
    assert_eq!(coordinator.mode, SessionMode::Stream);
}
