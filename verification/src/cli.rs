//! Stable command-line contract shared by both executables.

use std::path::PathBuf;

use vstd::prelude::*;
use vstd::string::*;

use crate::error::{error_view, Category, Error, ErrorView};
use crate::span::Span;
use crate::text::{joined, parse_unsigned, parsed_unsigned};

verus! {

broadcast use vstd::string::group_string_axioms;

/// `std::path::PathBuf`, a file-system path, which the library only carries.
#[verifier::external_type_specification]
#[verifier::external_body]
pub struct ExPathBuf(PathBuf);

/// The slowest line rate, in bits per second.
pub const MINIMUM_BAUD: u32 = 9_600;

/// The fastest line rate, in bits per second.
pub const MAXIMUM_BAUD: u32 = 12_000_000;

/// The line rate without a request for another, in bits per second.
pub const DEFAULT_BAUD: u32 = 115_200;

/// Process exit codes promised to callers and the lab harness.
#[derive(Clone, Copy, Debug, PartialEq, Eq, Structural)]
pub enum ExitCode {
    Success,
    CliOrSelection,
    AccessOrBusy,
    ProtocolOrResource,
    TimeoutOrCancellation,
    ValidationMismatch,
}

/// The process exit status of each exit code.
pub open spec fn exit_code_value(code: ExitCode) -> i32 {
    match code {
        ExitCode::Success => 0,
        ExitCode::CliOrSelection => 2,
        ExitCode::AccessOrBusy => 3,
        ExitCode::ProtocolOrResource => 4,
        ExitCode::TimeoutOrCancellation => 5,
        ExitCode::ValidationMismatch => 6,
    }
}

impl ExitCode {
    /// The process exit status.
    #[must_use]
    pub fn as_i32(self) -> (value: i32)
        ensures
            value == exit_code_value(self),
    {
        match self {
            ExitCode::Success => 0,
            ExitCode::CliOrSelection => 2,
            ExitCode::AccessOrBusy => 3,
            ExitCode::ProtocolOrResource => 4,
            ExitCode::TimeoutOrCancellation => 5,
            ExitCode::ValidationMismatch => 6,
        }
    }
}

/// Error categories mapped to the stable process exit contract.
#[derive(Debug)]
pub enum AppError {
    Selection(String),
    Access(String),
    Protocol(String),
    Timeout(String),
    Validation(String),
}

impl DeepView for AppError {
    type V = ErrorView;

    open spec fn deep_view(&self) -> ErrorView {
        match self {
            AppError::Selection(message) => error_view(Category::Selection, message@),
            AppError::Access(message) => error_view(Category::Access, message@),
            AppError::Protocol(message) => error_view(Category::Protocol, message@),
            AppError::Timeout(message) => error_view(Category::Timeout, message@),
            AppError::Validation(message) => error_view(Category::Validation, message@),
        }
    }
}

/// A result whose error is taken by its category and diagnostic.
pub open spec fn app_result_view<T>(result: Result<T, AppError>) -> Result<T, ErrorView> {
    match result {
        Ok(value) => Ok(value),
        Err(error) => Err(error.deep_view()),
    }
}

/// The exit code of each error category.
pub open spec fn category_exit_code(category: Category) -> ExitCode {
    match category {
        Category::Selection => ExitCode::CliOrSelection,
        Category::Access => ExitCode::AccessOrBusy,
        Category::Protocol => ExitCode::ProtocolOrResource,
        Category::Timeout => ExitCode::TimeoutOrCancellation,
        Category::Validation => ExitCode::ValidationMismatch,
    }
}

impl AppError {
    /// The exit code of a process that ends with this error.
    #[must_use]
    pub fn exit_code(&self) -> (code: ExitCode)
        ensures
            code == category_exit_code(self.deep_view().category),
    {
        match self {
            AppError::Selection(_) => ExitCode::CliOrSelection,
            AppError::Access(_) => ExitCode::AccessOrBusy,
            AppError::Protocol(_) => ExitCode::ProtocolOrResource,
            AppError::Timeout(_) => ExitCode::TimeoutOrCancellation,
            AppError::Validation(_) => ExitCode::ValidationMismatch,
        }
    }

    /// The diagnostic text of this error.
    pub fn message(&self) -> (message: &str)
        ensures
            message@ == self.deep_view().message,
    {
        match self {
            AppError::Selection(message) => message.as_str(),
            AppError::Access(message) => message.as_str(),
            AppError::Protocol(message) => message.as_str(),
            AppError::Timeout(message) => message.as_str(),
            AppError::Validation(message) => message.as_str(),
        }
    }

    /// The same category and diagnostic as `error`.
    pub fn of(error: Error) -> (same: AppError)
        ensures
            same.deep_view() == error.deep_view(),
    {
        match error {
            Error::Selection(message) => AppError::Selection(message),
            Error::Access(message) => AppError::Access(message),
            Error::Protocol(message) => AppError::Protocol(message),
            Error::Timeout(message) => AppError::Timeout(message),
            Error::Validation(message) => AppError::Validation(message),
        }
    }

    /// The same category and diagnostic as this error.
    pub fn into_error(self) -> (same: Error)
        ensures
            same.deep_view() == self.deep_view(),
    {
        match self {
            AppError::Selection(message) => Error::Selection(message),
            AppError::Access(message) => Error::Access(message),
            AppError::Protocol(message) => Error::Protocol(message),
            AppError::Timeout(message) => Error::Timeout(message),
            AppError::Validation(message) => Error::Validation(message),
        }
    }
}

/// C232HD transport chosen explicitly by the user.
#[derive(Clone, Copy, Debug, PartialEq, Eq, Structural)]
pub enum C232Backend {
    Vcp,
    Usb,
}

impl Default for C232Backend {
    fn default() -> (backend: C232Backend)
        ensures
            backend == C232Backend::Vcp,
    {
        C232Backend::Vcp
    }
}

/// Options common to console and stream modes.
#[derive(Clone, Debug)]
pub struct CommonOptions {
    /// Select the device by USB serial number.
    pub serial: Option<String>,
    /// Requested line rate in bits per second.
    pub baud: u32,
    /// Write structured events as newline-delimited JSON.
    pub event_log: Option<PathBuf>,
}

/// Timing options used by byte-transparent stream mode.
#[derive(Clone, Debug)]
pub struct StreamTiming {
    /// RX quiet period required after TX drain.
    pub rx_idle_timeout: Span,
    /// Maximum wait for device-observable TX completion.
    pub drain_timeout: Span,
}

#[derive(Clone, Debug)]
pub struct GuartConsole {
    pub common: CommonOptions,
}

#[derive(Clone, Debug)]
pub struct GuartStream {
    pub common: CommonOptions,
    pub timing: StreamTiming,
}

#[derive(Clone, Debug)]
pub struct C232Common {
    /// Use the OS serial driver or explicit native USB access.
    pub backend: C232Backend,
    /// VCP path. Valid only with `--backend vcp`.
    pub port: Option<PathBuf>,
    pub common: CommonOptions,
}

/// The diagnostic for a VCP path beside another backend.
pub open spec fn port_conflict() -> ErrorView {
    error_view(Category::Selection, "--port is valid only with --backend vcp"@)
}

/// Device options are valid unless they name a VCP path for the direct USB backend.
pub open spec fn device_options_check(backend: C232Backend, has_port: bool) -> Result<
    (),
    ErrorView,
> {
    if backend == C232Backend::Usb && has_port {
        Err(port_conflict())
    } else {
        Ok(())
    }
}

impl C232Common {
    /// Rejects a VCP path beside the direct USB backend.
    pub fn validate(&self) -> (result: Result<(), AppError>)
        ensures
            app_result_view(result) == device_options_check(self.backend, self.port is Some),
    {
        if self.backend == C232Backend::Usb && self.port.is_some() {
            return Err(AppError::Selection("--port is valid only with --backend vcp".to_owned()));
        }
        Ok(())
    }
}

#[derive(Clone, Debug)]
pub struct C232Console {
    pub device: C232Common,
}

#[derive(Clone, Debug)]
pub struct C232Stream {
    pub device: C232Common,
    pub timing: StreamTiming,
}

#[derive(Clone, Debug)]
pub enum GuartCommand {
    /// List normal Glasgow devices without changing their state.
    List {
        /// Emit one JSON array on stdout.
        json: bool,
    },
    /// Run an interactive raw-terminal session.
    Console(GuartConsole),
    /// Copy stdin to UART and UART to stdout byte-for-byte.
    Stream(GuartStream),
}

#[derive(Clone, Debug)]
pub enum C232Command {
    /// List attached C232HD-DDHSP-0 devices.
    List {
        /// Emit one JSON array on stdout.
        json: bool,
    },
    /// Run an interactive raw-terminal session.
    Console(C232Console),
    /// Copy stdin to UART and UART to stdout byte-for-byte.
    Stream(C232Stream),
}

#[derive(Clone, Debug)]
pub struct GuartCli {
    pub command: GuartCommand,
}

#[derive(Clone, Debug)]
pub struct C232Cli {
    pub command: C232Command,
}

/// The device options of a command that opens a device.
pub open spec fn command_device(command: C232Command) -> Option<C232Common> {
    match command {
        C232Command::List { .. } => None,
        C232Command::Console(options) => Some(options.device),
        C232Command::Stream(options) => Some(options.device),
    }
}

impl C232Cli {
    /// Rejects a VCP path beside the direct USB backend.
    pub fn validate(&self) -> (result: Result<(), AppError>)
        ensures
            app_result_view(result) == (match command_device(self.command) {
                Some(device) => device_options_check(device.backend, device.port is Some),
                None => Ok(()),
            }),
    {
        match &self.command {
            C232Command::List { .. } => Ok(()),
            C232Command::Console(options) => options.device.validate(),
            C232Command::Stream(options) => options.device.validate(),
        }
    }
}

/// The quoted and escaped spelling that the `{:?}` format gives a text.
pub uninterp spec fn quoted(text: Seq<char>) -> Seq<char>;

/// `format!("{:?}")` of a text: the spelling is a function of the text, and is named
/// [`quoted`]; which characters it escapes is left unsaid.
#[verifier::external_body]
fn quoted_text(text: &str) -> (out: String)
    ensures
        out@ == quoted(text@),
{
    format!("{text:?}")
}

/// The diagnostic for a line rate out of range.
pub open spec fn baud_range_text() -> Seq<char> {
    "baud rate must be between 9600 and 12000000"@
}

/// What a line-rate argument means: an unsigned decimal number in the supported range.
pub open spec fn parsed_baud(text: Seq<char>) -> Result<u32, Seq<char>> {
    match parsed_unsigned(vstd::utf8::encode_utf8(text), 10, u32::MAX as nat) {
        None => Err("invalid baud rate "@ + quoted(text)),
        Some(baud) => if MINIMUM_BAUD <= baud <= MAXIMUM_BAUD {
            Ok(baud as u32)
        } else {
            Err(baud_range_text())
        },
    }
}

/// A parse result whose diagnostic is taken as a sequence of characters.
pub open spec fn text_result<T>(result: Result<T, String>) -> Result<T, Seq<char>> {
    match result {
        Ok(value) => Ok(value),
        Err(message) => Err(message@),
    }
}

/// Parses a line-rate argument.
pub fn parse_baud(value: &str) -> (result: Result<u32, String>)
    ensures
        text_result(result) == parsed_baud(value@),
{
    match parse_unsigned(value.as_bytes(), 10, u32::MAX) {
        None => Err(joined("invalid baud rate ", quoted_text(value).as_str())),
        Some(baud) => if MINIMUM_BAUD <= baud && baud <= MAXIMUM_BAUD {
            Ok(baud)
        } else {
            Err("baud rate must be between 9600 and 12000000".to_owned())
        },
    }
}

/// The unit of a duration argument.
#[derive(Clone, Copy, Debug, PartialEq, Eq, Structural)]
pub enum DurationUnit {
    Milliseconds,
    Seconds,
}

/// A duration argument as its number, still a text, and its unit.
#[derive(Clone, Debug)]
pub struct DurationText {
    pub number: String,
    pub unit: DurationUnit,
}

/// Whether `text` ends in `suffix`.
pub open spec fn ends_in(text: Seq<char>, suffix: Seq<char>) -> bool {
    text.len() >= suffix.len() && text.skip(text.len() - suffix.len()) == suffix
}

/// The number and the unit of a duration argument.
pub open spec fn split_duration_text(text: Seq<char>) -> Option<(Seq<char>, DurationUnit)> {
    if ends_in(text, "ms"@) {
        Some((text.take(text.len() - 2), DurationUnit::Milliseconds))
    } else if ends_in(text, "s"@) {
        Some((text.take(text.len() - 1), DurationUnit::Seconds))
    } else {
        None
    }
}

/// Splits a duration argument into its number and its unit.
pub fn split_duration(value: &str) -> (result: Result<DurationText, String>)
    ensures
        match (result, split_duration_text(value@)) {
            (Ok(parts), Some((number, unit))) => parts.number@ == number && parts.unit == unit,
            (Err(message), None) => message@ == "duration must end in ms or s"@,
            _ => false,
        },
{
    proof {
        reveal_strlit("ms");
        reveal_strlit("s");
    }
    let length: usize = value.unicode_len();
    if length >= 1 && value.get_char(length - 1) == 's' {
        if length >= 2 && value.get_char(length - 2) == 'm' {
            assert(value@.skip(length - 2) =~= "ms"@);
            assert(ends_in(value@, "ms"@));
            let number = value.substring_char(0, length - 2).to_owned();
            assert(number@ =~= value@.take(length - 2));
            return Ok(DurationText { number, unit: DurationUnit::Milliseconds });
        }
        assert(value@.skip(length - 1) =~= "s"@);
        assert(!ends_in(value@, "ms"@)) by {
            if ends_in(value@, "ms"@) {
                assert(value@.skip(length - 2)[0] == value@[length - 2]);
            }
        }
        let number = value.substring_char(0, length - 1).to_owned();
        assert(number@ =~= value@.take(length - 1));
        return Ok(DurationText { number, unit: DurationUnit::Seconds });
    }
    assert(!ends_in(value@, "ms"@) && !ends_in(value@, "s"@)) by {
        if ends_in(value@, "ms"@) {
            assert(value@.skip(length - 2)[1] == value@[length - 1]);
        }
        if ends_in(value@, "s"@) {
            assert(value@.skip(length - 1)[0] == value@[length - 1]);
        }
    }
    Err("duration must end in ms or s".to_owned())
}

/// What the number of a duration argument turned out to be.
#[derive(Clone, Copy, Debug, PartialEq, Eq, Structural)]
pub enum DurationAmount {
    /// It is no number.
    Malformed,
    /// It is infinite, undefined, zero or negative.
    Unusable,
    /// It is finite and greater than zero.
    Usable,
}

/// The verdict on the number of a duration argument.
pub open spec fn duration_verdict(text: Seq<char>, amount: DurationAmount) -> Result<
    (),
    Seq<char>,
> {
    match amount {
        DurationAmount::Malformed => Err("invalid duration "@ + quoted(text)),
        DurationAmount::Unusable => Err("duration must be finite and greater than zero"@),
        DurationAmount::Usable => Ok(()),
    }
}

/// Accepts or rejects a duration argument by what its number turned out to be.
pub fn check_duration(value: &str, amount: DurationAmount) -> (result: Result<(), String>)
    ensures
        text_result(result) == duration_verdict(value@, amount),
{
    match amount {
        DurationAmount::Malformed => Err(
            joined("invalid duration ", quoted_text(value).as_str()),
        ),
        DurationAmount::Unusable => Err(
            "duration must be finite and greater than zero".to_owned(),
        ),
        DurationAmount::Usable => Ok(()),
    }
}

}
