use std::path::PathBuf;

use glasgow_tool::cli::{
    check_duration, parse_baud, split_duration, AppError, C232Backend, C232Cli, C232Command,
    C232Common, C232Stream, CommonOptions, DurationAmount, DurationUnit, ExitCode, StreamTiming,
    DEFAULT_BAUD,
};
use glasgow_tool::error::{Category, Error};
use glasgow_tool::events::{
    saturated_nanos, Backend, EventClock, EventLog, HardwareCounters, Phase,
};
use glasgow_tool::session::{
    final_status, log_write_failed, session_record, session_result, summary_line, workers_joined,
    SessionStatistics, StopReason, TransportMetadata,
};
use glasgow_tool::span::{Deadline, Span};
use glasgow_tool::terminal::RawTerminalGuard;
use glasgow_tool::uart::telemetry::error_exit_code;
use glasgow_tool::uart::Conclusion;
use glasgow_tool::Tool;

fn stream(backend: C232Backend, port: Option<&str>) -> C232Cli {
    C232Cli {
        command: C232Command::Stream(C232Stream {
            device: C232Common {
                backend,
                port: port.map(PathBuf::from),
                common: CommonOptions {
                    serial: None,
                    baud: DEFAULT_BAUD,
                    event_log: None,
                },
            },
            timing: StreamTiming {
                rx_idle_timeout: Span::from_secs(2),
                drain_timeout: Span::from_secs(5),
            },
        }),
    }
}

#[test]
fn usb_backend_rejects_vcp_port() {
    assert!(stream(C232Backend::Usb, Some("/dev/ttyUSB0"))
        .validate()
        .is_err());
}

#[test]
fn other_backend_and_port_combinations_are_valid() {
    assert!(stream(C232Backend::Usb, None).validate().is_ok());
    assert!(stream(C232Backend::Vcp, Some("/dev/ttyUSB0"))
        .validate()
        .is_ok());
    assert!(C232Cli {
        command: C232Command::List { json: true }
    }
    .validate()
    .is_ok());
    let error = stream(C232Backend::Usb, Some("/dev/ttyUSB0"))
        .validate()
        .unwrap_err();
    assert_eq!(error.message(), "--port is valid only with --backend vcp");
    assert_eq!(error.exit_code(), ExitCode::CliOrSelection);
    assert_eq!(C232Backend::default(), C232Backend::Vcp);
}

#[test]
fn exit_codes_are_stable() {
    assert_eq!(ExitCode::Success.as_i32(), 0);
    let text = || "why".to_owned();
    let cases = [
        (AppError::Selection(text()), Error::Selection(text()), 2),
        (AppError::Access(text()), Error::Access(text()), 3),
        (AppError::Protocol(text()), Error::Protocol(text()), 4),
        (AppError::Timeout(text()), Error::Timeout(text()), 5),
        (AppError::Validation(text()), Error::Validation(text()), 6),
    ];
    for (app, library, code) in cases {
        assert_eq!(app.exit_code().as_i32(), code);
        assert_eq!(error_exit_code(&library), code);
        assert_eq!(AppError::of(library).exit_code().as_i32(), code);
        assert_eq!(app.into_error().message(), "why");
    }
    assert_eq!(
        AppError::Timeout(text()).into_error().category(),
        Category::Timeout
    );
}

#[test]
fn baud_arguments_are_decimal_and_in_range() {
    assert_eq!(parse_baud("9600"), Ok(9_600));
    assert_eq!(parse_baud("+12000000"), Ok(12_000_000));
    let range = "baud rate must be between 9600 and 12000000".to_owned();
    assert_eq!(parse_baud("9599"), Err(range.clone()));
    assert_eq!(parse_baud("12000001"), Err(range));
    assert_eq!(
        parse_baud("fast"),
        Err("invalid baud rate \"fast\"".to_owned())
    );
    assert_eq!(
        parse_baud("a\"b\n"),
        Err("invalid baud rate \"a\\\"b\\n\"".to_owned())
    );
    assert_eq!(parse_baud(""), Err("invalid baud rate \"\"".to_owned()));
    assert_eq!(parse_baud("+"), Err("invalid baud rate \"+\"".to_owned()));
    assert_eq!(
        parse_baud("4294967296"),
        Err("invalid baud rate \"4294967296\"".to_owned())
    );
}

#[test]
fn duration_arguments_have_a_unit() {
    let parts = split_duration("250ms").unwrap();
    assert_eq!(parts.number, "250");
    assert_eq!(parts.unit, DurationUnit::Milliseconds);
    let parts = split_duration("1.5s").unwrap();
    assert_eq!(parts.number, "1.5");
    assert_eq!(parts.unit, DurationUnit::Seconds);
    assert_eq!(split_duration("s").unwrap().number, "");
    assert_eq!(
        split_duration("5m").unwrap_err(),
        "duration must end in ms or s"
    );
    assert!(split_duration("").is_err());
    assert_eq!(
        check_duration("xs", DurationAmount::Malformed),
        Err("invalid duration \"xs\"".to_owned())
    );
    assert_eq!(
        check_duration("0s", DurationAmount::Unusable),
        Err("duration must be finite and greater than zero".to_owned())
    );
    assert_eq!(check_duration("1s", DurationAmount::Usable), Ok(()));
}

#[test]
fn tools_have_stable_names() {
    assert_eq!(Tool::Guart.name(), "guart");
    assert_eq!(Tool::C232Uart.name(), "c232uart");
}

fn metadata() -> TransportMetadata {
    TransportMetadata {
        backend: Backend::Glasgow,
        serial: "C3-1".to_owned(),
        path: Some("3-1".to_owned()),
        requested_baud: 115_200,
        actual_baud: 115_107,
        minimum_baud: 9_600,
        maximum_baud: 12_000_000,
    }
}

#[test]
fn event_logs_stamp_their_records() {
    let metadata = metadata();
    let record = session_record(
        7,
        &metadata,
        HardwareCounters {
            rx_errors: 1,
            rx_overflow: 2,
        },
        Phase::Final,
        SessionStatistics::default(),
        Some("rx_idle"),
        Some(ExitCode::TimeoutOrCancellation),
    );
    assert_eq!(record.tool, "");
    let mut log = EventLog::open(Some(Vec::<u8>::new()), Tool::Guart);
    let written = log.stamp(record.clone(), 99).unwrap();
    assert_eq!(written.tool, "guart");
    assert_eq!(written.schema_version, 1);
    assert_eq!(written.monotonic_ns, 99);
    assert_eq!(written.selected_serial, Some("C3-1"));
    assert_eq!(written.selected_path, Some("3-1"));
    assert_eq!(written.actual_baud, Some(115_107));
    assert_eq!(written.hardware.rx_overflow, 2);
    assert_eq!(written.reason, Some("rx_idle"));
    assert_eq!(written.exit_code, Some(5));
    log.writer().as_mut().unwrap().push(1);
    assert_eq!(log.writer().as_ref().unwrap().len(), 1);
    assert!(log.timestamp() <= log.timestamp());
    let silent: EventLog<Vec<u8>> = EventLog::open(None, Tool::C232Uart);
    assert!(silent.stamp(record, 1).is_none());
}

#[test]
fn clocks_count_up_and_saturate() {
    let clock = EventClock::default();
    let first = clock.elapsed_ns();
    assert!(clock.elapsed_ns() >= first);
    assert_eq!(saturated_nanos(5), 5);
    assert_eq!(saturated_nanos(u128::from(u64::MAX) + 1), u64::MAX);
}

#[test]
fn tool_sessions_end_with_their_exit_code() {
    assert_eq!(
        workers_joined(true, true).unwrap_err().message(),
        "TX worker panicked"
    );
    assert_eq!(
        workers_joined(false, true).unwrap_err().message(),
        "RX worker panicked"
    );
    assert!(workers_joined(false, false).is_ok());
    let failed = Conclusion::Fail {
        stop_reason: Some(StopReason::Cancelled),
        error: Error::Timeout("session cancelled by signal".to_owned()),
    };
    assert_eq!(
        final_status(&failed),
        (Some(StopReason::Cancelled), ExitCode::TimeoutOrCancellation)
    );
    let statistics = SessionStatistics {
        tx_bytes_accepted: 5,
        tx_bytes_completed: 4,
        rx_bytes: 12,
    };
    let hardware = HardwareCounters {
        rx_errors: 3,
        rx_overflow: 9,
    };
    assert!(session_result(failed, None, statistics, hardware).is_err());
    let done = Conclusion::Succeed {
        reason: StopReason::RxIdle,
    };
    assert_eq!(
        final_status(&done),
        (Some(StopReason::RxIdle), ExitCode::Success)
    );
    let report = session_result(done, None, statistics, hardware).unwrap();
    assert_eq!(report.exit_code, ExitCode::Success);
    assert_eq!(report.hardware, hardware);
    let done = Conclusion::Succeed {
        reason: StopReason::RxIdle,
    };
    let refused = session_result(done, Some(log_write_failed("full")), statistics, hardware);
    assert_eq!(
        refused.unwrap_err().message(),
        "event log write failed: full"
    );
    assert_eq!(
        summary_line(statistics, None),
        "TX accepted/completed: 5/4, RX: 12 bytes"
    );
    assert_eq!(
        summary_line(statistics, Some(hardware)),
        "TX accepted/completed: 5/4, RX: 12 bytes, errors: 3, overflow: 9"
    );
}

#[test]
fn terminals_are_restored_once() {
    assert!(RawTerminalGuard::enter(Err("no terminal")).is_err());
    let mut guard = RawTerminalGuard::enter(Ok::<(), &str>(())).unwrap();
    assert!(guard.active());
    assert_eq!(guard.restore(Err("busy")), Err("busy"));
    assert!(guard.active());
    assert_eq!(guard.restore(Ok::<(), &str>(())), Ok(()));
    assert!(!guard.active());
}

#[test]
fn deadlines_come_when_their_time_has_passed() {
    let deadline = Deadline::after(Span::from_millis(5), Span::from_millis(10));
    assert!(!deadline.reached(Span::from_nanos(14_999_999)));
    assert!(deadline.reached(Span::from_millis(15)));
    assert_eq!(Span::from_secs(2).as_millis(), 2_000);
    assert_eq!(Span::from_millis(2).as_nanos(), 2_000_000);
}
