//! Blocking UART discovery, ports, sessions, and telemetry.

pub mod c232;
pub mod completion;
pub mod conduct;
pub mod coordination;
pub mod discovery;
pub mod glasgow;
pub mod session;
pub mod telemetry;
pub mod transparency;
pub mod transport;
pub mod worker;

pub use session::{
    CancellationToken, Conclusion, Coordinator, SessionMode, SessionOptions, SessionReport,
    SessionStatistics, StopReason,
};
pub use telemetry::{NdjsonObserver, NoopObserver, SessionEvent, SessionObserver, SessionPhase};
pub use transport::{
    Counters, IoError, IoErrorKind, Metadata, Port, TransferFailure, TransferFailureKind,
    TransferOutcome, Transport,
};
pub use worker::CONSOLE_ESCAPE;
