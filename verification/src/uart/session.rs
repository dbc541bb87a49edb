//! Session configuration, coordination, and conclusion.
//!
//! The coordinator watches both workers of a session. The session thread calls
//! [`Coordinator::tick`] before it waits for a worker event and [`Coordinator::handle`] with
//! the event, and carries out the commands that come back.

use std::sync::atomic::AtomicBool;
use std::sync::Arc;

use vstd::prelude::*;

use crate::error::{error_view, Category, Error, ErrorView};
use crate::span::{deadline_after, Deadline, Span};

use super::transport::Counters;
use super::worker::{WorkerEvent, WorkerEventView};

verus! {

/// How long the coordinator waits for a worker event, in milliseconds.
pub const COORDINATOR_TICK_MILLIS: u64 = 20;

/// Session framing and stop behavior.
#[derive(Clone, Copy, Debug, PartialEq, Eq, Structural)]
pub enum SessionMode {
    /// Echo local input and consume Ctrl-] as the exit command.
    Console,
    /// Forward input byte-for-byte, then wait for RX idle after TX drain.
    Stream,
}

/// Process-neutral cancellation signal shared with a session coordinator.
///
/// The signal is shared between threads, so what a look at it shows depends on them.
#[derive(Debug)]
pub struct CancellationToken(Arc<AtomicBool>);

/// Whether a flag is one that starts lowered.
pub open spec fn starts_lowered(flag: AtomicBool) -> bool {
    call_ensures(AtomicBool::new, (false,), flag)
}

/// Whether a flag was raised, with a releasing store.
pub open spec fn raises(flag: AtomicBool) -> bool {
    call_ensures(AtomicBool::store, (&flag, true, std::sync::atomic::Ordering::Release), ())
}

/// Whether an acquiring look at a flag can show `raised`.
pub open spec fn shows(flag: AtomicBool, raised: bool) -> bool {
    call_ensures(AtomicBool::load, (&flag, std::sync::atomic::Ordering::Acquire), raised)
}

impl CancellationToken {
    /// The flag behind this token.
    pub closed spec fn flag(&self) -> AtomicBool {
        *self.0
    }

    /// Create an uncancelled token.
    #[must_use]
    pub fn new() -> (token: Self)
        ensures
            starts_lowered(token.flag()),
    {
        CancellationToken(Arc::new(AtomicBool::new(false)))
    }

    /// Request cancellation: raise the flag.
    pub fn cancel(&self)
        ensures
            raises(self.flag()),
    {
        self.0.store(true, std::sync::atomic::Ordering::Release);
    }

    /// Report whether cancellation was requested: what one look at the flag shows.
    #[must_use]
    pub fn is_cancelled(&self) -> (cancelled: bool)
        ensures
            shows(self.flag(), cancelled),
    {
        self.0.load(std::sync::atomic::Ordering::Acquire)
    }
}

impl Clone for CancellationToken {
    /// Another handle to the same flag.
    fn clone(&self) -> (copy: Self)
        ensures
            copy.flag() == self.flag(),
    {
        CancellationToken(Arc::clone(&self.0))
    }
}

impl Default for CancellationToken {
    /// An uncancelled token.
    fn default() -> (token: Self)
        ensures
            starts_lowered(token.flag()),
    {
        CancellationToken::new()
    }
}

/// Full-duplex session configuration.
#[derive(Debug)]
pub struct SessionOptions {
    /// Console or byte-transparent stream behavior.
    pub mode: SessionMode,
    /// Quiet interval after stream TX drain.
    pub rx_idle_timeout: Span,
    /// Maximum bounded shutdown and TX-drain interval.
    pub drain_timeout: Span,
    /// Caller-owned cancellation signal.
    pub cancellation: CancellationToken,
}

impl Clone for SessionOptions {
    /// The same configuration, with the same cancellation signal.
    fn clone(&self) -> (copy: Self)
        ensures
            copy.mode == self.mode,
            copy.rx_idle_timeout == self.rx_idle_timeout,
            copy.drain_timeout == self.drain_timeout,
            copy.cancellation.flag() == self.cancellation.flag(),
    {
        SessionOptions {
            mode: self.mode,
            rx_idle_timeout: self.rx_idle_timeout,
            drain_timeout: self.drain_timeout,
            cancellation: self.cancellation.clone(),
        }
    }
}

impl SessionOptions {
    /// Console defaults: 2-second RX idle and 5-second drain bounds, and a token of its own.
    #[must_use]
    pub fn console() -> (options: Self)
        ensures
            options.mode == SessionMode::Console,
            options.rx_idle_timeout@ == 2_000_000_000,
            options.drain_timeout@ == 5_000_000_000,
            starts_lowered(options.cancellation.flag()),
    {
        SessionOptions {
            mode: SessionMode::Console,
            rx_idle_timeout: Span::from_secs(2),
            drain_timeout: Span::from_secs(5),
            cancellation: CancellationToken::new(),
        }
    }

    /// Stream defaults: 2-second RX idle and 5-second drain bounds, and a token of its own.
    #[must_use]
    pub fn stream() -> (options: Self)
        ensures
            options.mode == SessionMode::Stream,
            options.rx_idle_timeout@ == 2_000_000_000,
            options.drain_timeout@ == 5_000_000_000,
            starts_lowered(options.cancellation.flag()),
    {
        SessionOptions {
            mode: SessionMode::Stream,
            rx_idle_timeout: Span::from_secs(2),
            drain_timeout: Span::from_secs(5),
            cancellation: CancellationToken::new(),
        }
    }
}

/// Byte counts accumulated by one session.
#[derive(Clone, Copy, Debug, PartialEq, Eq, Structural)]
pub struct SessionStatistics {
    /// Bytes accepted by the transport for transmission.
    pub tx_bytes_accepted: u64,
    /// Accepted bytes confirmed complete by a device-observable drain.
    pub tx_bytes_completed: u64,
    /// Bytes written to the session output.
    pub rx_bytes: u64,
}

impl Default for SessionStatistics {
    /// The statistics of a session that has not started.
    fn default() -> (statistics: SessionStatistics)
        ensures
            statistics == (SessionStatistics {
                tx_bytes_accepted: 0,
                tx_bytes_completed: 0,
                rx_bytes: 0,
            }),
    {
        SessionStatistics { tx_bytes_accepted: 0, tx_bytes_completed: 0, rx_bytes: 0 }
    }
}

/// Successful session stop condition.
#[derive(Clone, Copy, Debug, PartialEq, Eq, Structural)]
pub enum StopReason {
    /// Stream RX remained quiet after TX completed.
    RxIdle,
    /// Console input contained Ctrl-].
    ConsoleEscape,
    /// The caller requested cancellation.
    Cancelled,
}

/// The telemetry spelling of a stop reason.
pub open spec fn reason_text(reason: StopReason) -> Seq<char> {
    match reason {
        StopReason::RxIdle => "rx_idle"@,
        StopReason::ConsoleEscape => "console_escape"@,
        StopReason::Cancelled => "cancelled"@,
    }
}

impl StopReason {
    /// Stable telemetry spelling.
    #[must_use]
    pub fn as_str(self) -> (text: &'static str)
        ensures
            text@ == reason_text(self),
    {
        match self {
            StopReason::RxIdle => "rx_idle",
            StopReason::ConsoleEscape => "console_escape",
            StopReason::Cancelled => "cancelled",
        }
    }
}

/// Final successful session state.
#[derive(Clone, Copy, Debug, PartialEq, Eq, Structural)]
pub struct SessionReport {
    /// Final byte counters.
    pub statistics: SessionStatistics,
    /// Final hardware receive counters.
    pub hardware: Counters,
    /// Successful stop condition.
    pub reason: StopReason,
}

/// What the session thread carries out after a coordination step.
#[derive(Clone, Copy, Debug, PartialEq, Eq, Structural)]
pub struct Commands {
    /// Set the cancellation flag that the workers look at.
    pub raise_cancelled: bool,
    /// Cancel in-flight transport operations.
    pub cancel_transport: bool,
}

/// The coordination state of a session.
#[derive(Debug)]
pub struct Coordinator {
    pub mode: SessionMode,
    pub rx_idle_timeout: Span,
    pub drain_timeout: Span,
    /// The transmit worker is gone.
    pub tx_stopped: bool,
    /// The receive worker is gone.
    pub rx_stopped: bool,
    /// When the transmitter of a stream finished.
    pub drained_at: Option<Span>,
    pub stop_reason: Option<StopReason>,
    pub failure: Option<Error>,
    /// When the workers are overdue.
    pub join_deadline: Option<Deadline>,
    /// The observer refused an event.
    pub observer_failed: bool,
}

/// The coordination state over plain values.
pub struct CoordinatorView {
    pub mode: SessionMode,
    pub rx_idle_timeout: nat,
    pub drain_timeout: nat,
    pub tx_stopped: bool,
    pub rx_stopped: bool,
    pub drained_at: Option<nat>,
    pub stop_reason: Option<StopReason>,
    pub failure: Option<ErrorView>,
    pub join_deadline: Option<nat>,
    pub observer_failed: bool,
}

impl DeepView for Coordinator {
    type V = CoordinatorView;

    open spec fn deep_view(&self) -> CoordinatorView {
        CoordinatorView {
            mode: self.mode,
            rx_idle_timeout: self.rx_idle_timeout@,
            drain_timeout: self.drain_timeout@,
            tx_stopped: self.tx_stopped,
            rx_stopped: self.rx_stopped,
            drained_at: match self.drained_at {
                Some(moment) => Some(moment@),
                None => None,
            },
            stop_reason: self.stop_reason,
            failure: self.failure.deep_view(),
            join_deadline: match self.join_deadline {
                Some(deadline) => Some(deadline@),
                None => None,
            },
            observer_failed: self.observer_failed,
        }
    }
}

/// The state before any worker started.
pub open spec fn coordinator_start(
    mode: SessionMode,
    rx_idle_timeout: nat,
    drain_timeout: nat,
) -> CoordinatorView {
    CoordinatorView {
        mode,
        rx_idle_timeout,
        drain_timeout,
        tx_stopped: false,
        rx_stopped: false,
        drained_at: None,
        stop_reason: None,
        failure: None,
        join_deadline: None,
        observer_failed: false,
    }
}

/// Nothing to carry out.
pub open spec fn no_commands() -> Commands {
    Commands { raise_cancelled: false, cancel_transport: false }
}

/// Stop the workers and the transport.
pub open spec fn shut_down() -> Commands {
    Commands { raise_cancelled: true, cancel_transport: true }
}

/// The state with a fresh deadline for the workers to leave.
pub open spec fn awaiting_workers(c: CoordinatorView, now: nat) -> CoordinatorView {
    CoordinatorView { join_deadline: Some(deadline_after(now, c.drain_timeout)), ..c }
}

/// Whether a raised flag is a cancellation that is not accounted for yet.
pub open spec fn cancellation_is_news(c: CoordinatorView, cancelled: bool) -> bool {
    cancelled && c.stop_reason is None && c.failure is None
}

/// The state once a cancellation is noticed.
pub open spec fn notice_cancellation(c: CoordinatorView, now: nat) -> CoordinatorView {
    awaiting_workers(
        CoordinatorView {
            stop_reason: Some(StopReason::Cancelled),
            failure: Some(error_view(Category::Timeout, "session cancelled by signal"@)),
            ..c
        },
        now,
    )
}

/// Whether a drained stream has been quiet for its whole idle interval. The interval starts
/// at the drain or at the last received byte, whichever came later.
pub open spec fn is_idle(c: CoordinatorView, now: nat, last_rx: nat) -> bool {
    match c.drained_at {
        Some(started) => {
            let quiet_since = if last_rx > started {
                last_rx
            } else {
                started
            };
            let quiet: nat = if now > quiet_since {
                (now - quiet_since) as nat
            } else {
                0
            };
            quiet >= c.rx_idle_timeout
        },
        None => false,
    }
}

/// The state once a stream is found idle. Workers that have a deadline already keep it.
pub open spec fn notice_idle(c: CoordinatorView, now: nat) -> CoordinatorView {
    let idle = CoordinatorView { stop_reason: Some(StopReason::RxIdle), ..c };
    if c.join_deadline is Some {
        idle
    } else {
        awaiting_workers(idle, now)
    }
}

/// Whether the workers are overdue and nothing has failed yet.
pub open spec fn is_overdue(c: CoordinatorView, now: nat) -> bool {
    c.failure is None && (c.join_deadline matches Some(deadline) && now >= deadline)
}

/// The state once the workers are found overdue.
pub open spec fn notice_overdue(c: CoordinatorView) -> CoordinatorView {
    CoordinatorView {
        failure: Some(
            error_view(
                Category::Timeout,
                "workers did not stop within the configured drain timeout"@,
            ),
        ),
        ..c
    }
}

/// What the coordinator does before it waits for an event: it notices a cancellation, then an
/// idle stream, then overdue workers. A stream that stays idle keeps its deadline.
pub open spec fn coordinator_tick(
    c: CoordinatorView,
    now: nat,
    cancelled: bool,
    last_rx: nat,
) -> (CoordinatorView, Commands) {
    let news = cancellation_is_news(c, cancelled);
    let first = if news {
        notice_cancellation(c, now)
    } else {
        c
    };
    let idle = is_idle(first, now, last_rx);
    let second = if idle {
        notice_idle(first, now)
    } else {
        first
    };
    let overdue = is_overdue(second, now);
    let third = if overdue {
        notice_overdue(second)
    } else {
        second
    };
    (third, Commands { raise_cancelled: idle, cancel_transport: news || idle || overdue })
}

/// Whether the observer is told of a worker event: that the transmitter finished, unless the
/// observer has refused an event before.
pub open spec fn observes(c: CoordinatorView, event: WorkerEventView) -> bool {
    event is TxDrained && !c.observer_failed
}

/// What the coordinator does with a worker event. `refusal` is the observer's error, if it was
/// told and refused.
pub open spec fn coordinator_handle(
    c: CoordinatorView,
    now: nat,
    event: WorkerEventView,
    refusal: Option<ErrorView>,
) -> (CoordinatorView, Commands) {
    match event {
        WorkerEventView::TxDrained(reason) => if observes(c, event) && refusal is Some {
            (
                awaiting_workers(
                    CoordinatorView { failure: refusal, observer_failed: true, ..c },
                    now,
                ),
                shut_down(),
            )
        } else if c.mode == SessionMode::Console || reason == StopReason::Cancelled {
            (
                awaiting_workers(CoordinatorView { stop_reason: Some(reason), ..c }, now),
                shut_down(),
            )
        } else {
            (CoordinatorView { drained_at: Some(now), ..c }, no_commands())
        },
        WorkerEventView::WorkerError(error) => {
            let failure = if c.failure is None {
                Some(error)
            } else {
                c.failure
            };
            (awaiting_workers(CoordinatorView { failure, ..c }, now), shut_down())
        },
        WorkerEventView::TxStopped => (CoordinatorView { tx_stopped: true, ..c }, no_commands()),
        WorkerEventView::RxStopped => (CoordinatorView { rx_stopped: true, ..c }, no_commands()),
        WorkerEventView::RxActivity => (c, no_commands()),
    }
}

/// The state once both workers are joined: a worker that panicked is a failure, unless there
/// is one already.
pub open spec fn coordinator_joined(
    c: CoordinatorView,
    tx_panicked: bool,
    rx_panicked: bool,
) -> CoordinatorView {
    let failure = if c.failure is Some {
        c.failure
    } else if tx_panicked {
        Some(error_view(Category::Protocol, "TX worker panicked"@))
    } else if rx_panicked {
        Some(error_view(Category::Protocol, "RX worker panicked"@))
    } else {
        None
    };
    CoordinatorView { failure, ..c }
}

/// How a session ends.
#[derive(Debug)]
pub enum Conclusion {
    /// The observer refused an event and is not told the rest.
    Abandon(Error),
    /// The session failed.
    Fail { stop_reason: Option<StopReason>, error: Error },
    /// The session succeeded.
    Succeed { reason: StopReason },
}

/// How a session ends, over plain values.
pub enum ConclusionView {
    Abandon(ErrorView),
    Fail { stop_reason: Option<StopReason>, error: ErrorView },
    Succeed { reason: StopReason },
}

impl DeepView for Conclusion {
    type V = ConclusionView;

    open spec fn deep_view(&self) -> ConclusionView {
        match self {
            Conclusion::Abandon(error) => ConclusionView::Abandon(error.deep_view()),
            Conclusion::Fail { stop_reason, error } => ConclusionView::Fail {
                stop_reason: *stop_reason,
                error: error.deep_view(),
            },
            Conclusion::Succeed { reason } => ConclusionView::Succeed { reason: *reason },
        }
    }
}

/// How a session with the given coordination ends. Without a recorded reason the receive line
/// fell idle.
pub open spec fn coordinator_conclusion(c: CoordinatorView) -> ConclusionView {
    if c.observer_failed {
        ConclusionView::Abandon(
            match c.failure {
                Some(error) => error,
                None => error_view(
                    Category::Protocol,
                    "observer failed without returning an error"@,
                ),
            },
        )
    } else {
        match c.failure {
            Some(error) => ConclusionView::Fail { stop_reason: c.stop_reason, error },
            None => ConclusionView::Succeed {
                reason: match c.stop_reason {
                    Some(reason) => reason,
                    None => StopReason::RxIdle,
                },
            },
        }
    }
}

/// The result of a session. `refusal` is the observer's error for the final event, which wins
/// over the session's own result.
pub open spec fn session_result(
    conclusion: ConclusionView,
    refusal: Option<ErrorView>,
    statistics: SessionStatistics,
    hardware: Counters,
) -> Result<SessionReport, ErrorView> {
    match conclusion {
        ConclusionView::Abandon(error) => Err(error),
        ConclusionView::Fail { error, .. } => Err(
            match refusal {
                Some(refused) => refused,
                None => error,
            },
        ),
        ConclusionView::Succeed { reason } => match refusal {
            Some(refused) => Err(refused),
            None => Ok(SessionReport { statistics, hardware, reason }),
        },
    }
}

impl Coordinator {
    /// The coordinator of a session whose workers have not started.
    pub fn new(mode: SessionMode, rx_idle_timeout: Span, drain_timeout: Span) -> (c: Self)
        ensures
            c.deep_view() == coordinator_start(mode, rx_idle_timeout@, drain_timeout@),
    {
        Coordinator {
            mode,
            rx_idle_timeout,
            drain_timeout,
            tx_stopped: false,
            rx_stopped: false,
            drained_at: None,
            stop_reason: None,
            failure: None,
            join_deadline: None,
            observer_failed: false,
        }
    }

    /// The coordinator of a session whose observer was told that it starts. `refusal` is the
    /// observer's error; a session that is refused has no coordinator, and its workers never
    /// start.
    pub fn begin(
        mode: SessionMode,
        rx_idle_timeout: Span,
        drain_timeout: Span,
        refusal: Option<Error>,
    ) -> (result: Result<Self, Error>)
        ensures
            match (result, refusal) {
                (Ok(c), None) => c.deep_view() == coordinator_start(
                    mode,
                    rx_idle_timeout@,
                    drain_timeout@,
                ),
                (Err(error), Some(refused)) => error == refused,
                _ => false,
            },
    {
        match refusal {
            Some(error) => Err(error),
            None => Ok(Coordinator::new(mode, rx_idle_timeout, drain_timeout)),
        }
    }

    /// Whether a worker is still there.
    pub fn running(&self) -> (running: bool)
        ensures
            running == !(self.deep_view().tx_stopped && self.deep_view().rx_stopped),
    {
        !self.tx_stopped || !self.rx_stopped
    }

    /// Gives the workers until the drain timeout has passed.
    fn await_workers(&mut self, now: Span)
        ensures
            final(self).deep_view() == awaiting_workers(old(self).deep_view(), now@),
    {
        self.join_deadline = Some(Deadline::after(now, self.drain_timeout));
    }

    /// Whether a drained stream has been quiet for its whole idle interval.
    fn idle(&self, now: Span, last_rx: Span) -> (idle: bool)
        ensures
            idle == is_idle(self.deep_view(), now@, last_rx@),
    {
        match self.drained_at {
            Some(started) => {
                let last = last_rx.as_nanos();
                let start = started.as_nanos();
                let quiet_since = if last > start {
                    last
                } else {
                    start
                };
                let moment = now.as_nanos();
                let quiet = if moment > quiet_since {
                    moment - quiet_since
                } else {
                    0
                };
                quiet >= self.rx_idle_timeout.as_nanos()
            },
            None => false,
        }
    }

    /// What is to be done before waiting for an event. `cancelled` is the cancellation flag,
    /// and `last_rx` is when the last byte was received.
    pub fn tick(&mut self, now: Span, cancelled: bool, last_rx: Span) -> (commands: Commands)
        ensures
            (final(self).deep_view(), commands) == coordinator_tick(
                old(self).deep_view(),
                now@,
                cancelled,
                last_rx@,
            ),
    {
        let news = cancelled && self.stop_reason.is_none() && self.failure.is_none();
        if news {
            self.stop_reason = Some(StopReason::Cancelled);
            self.failure = Some(Error::Timeout("session cancelled by signal".to_owned()));
            self.await_workers(now);
        }
        let idle = self.idle(now, last_rx);
        if idle {
            self.stop_reason = Some(StopReason::RxIdle);
            if self.join_deadline.is_none() {
                self.await_workers(now);
            }
        }
        let late = match self.join_deadline {
            Some(deadline) => deadline.reached(now),
            None => false,
        };
        let overdue = late && self.failure.is_none();
        if overdue {
            self.failure = Some(
                Error::Timeout(
                    "workers did not stop within the configured drain timeout".to_owned(),
                ),
            );
        }
        Commands { raise_cancelled: idle, cancel_transport: news || idle || overdue }
    }

    /// Whether the observer is to be told of `event` before it is handled.
    pub fn observes(&self, event: &WorkerEvent) -> (told: bool)
        ensures
            told == observes(self.deep_view(), event.deep_view()),
    {
        match event {
            WorkerEvent::TxDrained(_) => !self.observer_failed,
            _ => false,
        }
    }

    /// Takes a worker event. `refusal` is the observer's error, if it was told and refused.
    pub fn handle(&mut self, now: Span, event: WorkerEvent, refusal: Option<Error>) -> (commands:
        Commands)
        ensures
            (final(self).deep_view(), commands) == coordinator_handle(
                old(self).deep_view(),
                now@,
                event.deep_view(),
                refusal.deep_view(),
            ),
    {
        let stop = Commands { raise_cancelled: true, cancel_transport: true };
        let none = Commands { raise_cancelled: false, cancel_transport: false };
        match event {
            WorkerEvent::TxDrained(reason) => {
                if !self.observer_failed && refusal.is_some() {
                    self.failure = refusal;
                    self.observer_failed = true;
                    self.await_workers(now);
                    stop
                } else if self.mode == SessionMode::Console || reason == StopReason::Cancelled {
                    self.stop_reason = Some(reason);
                    self.await_workers(now);
                    stop
                } else {
                    self.drained_at = Some(now);
                    none
                }
            },
            WorkerEvent::WorkerError(error) => {
                if self.failure.is_none() {
                    self.failure = Some(error);
                }
                self.await_workers(now);
                stop
            },
            WorkerEvent::TxStopped => {
                self.tx_stopped = true;
                none
            },
            WorkerEvent::RxStopped => {
                self.rx_stopped = true;
                none
            },
            WorkerEvent::RxActivity => none,
        }
    }

    /// Takes how the workers left.
    pub fn join(&mut self, tx_panicked: bool, rx_panicked: bool)
        ensures
            final(self).deep_view() == coordinator_joined(
                old(self).deep_view(),
                tx_panicked,
                rx_panicked,
            ),
    {
        if tx_panicked && self.failure.is_none() {
            self.failure = Some(Error::Protocol("TX worker panicked".to_owned()));
        }
        if rx_panicked && self.failure.is_none() {
            self.failure = Some(Error::Protocol("RX worker panicked".to_owned()));
        }
    }

    /// How the session ends.
    pub fn conclude(self) -> (conclusion: Conclusion)
        ensures
            conclusion.deep_view() == coordinator_conclusion(self.deep_view()),
    {
        if self.observer_failed {
            return Conclusion::Abandon(
                match self.failure {
                    Some(error) => error,
                    None => Error::Protocol(
                        "observer failed without returning an error".to_owned(),
                    ),
                },
            );
        }
        match self.failure {
            Some(error) => Conclusion::Fail { stop_reason: self.stop_reason, error },
            None => Conclusion::Succeed {
                reason: match self.stop_reason {
                    Some(reason) => reason,
                    None => StopReason::RxIdle,
                },
            },
        }
    }
}

impl Conclusion {
    /// The result of the session. `refusal` is the observer's error for the final event.
    pub fn result(
        self,
        refusal: Option<Error>,
        statistics: SessionStatistics,
        hardware: Counters,
    ) -> (result: Result<SessionReport, Error>)
        ensures
            crate::error::result_view(result) == session_result(
                self.deep_view(),
                refusal.deep_view(),
                statistics,
                hardware,
            ),
    {
        match self {
            Conclusion::Abandon(error) => Err(error),
            Conclusion::Fail { error, .. } => match refusal {
                Some(refused) => Err(refused),
                None => Err(error),
            },
            Conclusion::Succeed { reason } => match refusal {
                Some(refused) => Err(refused),
                None => Ok(SessionReport { statistics, hardware, reason }),
            },
        }
    }
}

}
