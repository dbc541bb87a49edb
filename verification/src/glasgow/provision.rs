//! Provisioning of a Glasgow UART, as a machine that the opening thread runs.
//!
//! The machine names the one thing it waits for ([`Provision::action`]); the thread does it
//! and hands the result back ([`Provision::advance`]), until the UART is open or the machine
//! has failed.

use vstd::prelude::*;
use vstd::string::*;

use crate::baud::{baud_divisor, glasgow_baud};
use crate::cli::{AppError, MAXIMUM_BAUD, MINIMUM_BAUD};
use crate::error::{error_view, Category, ErrorView};
use crate::events::Backend;
use crate::session::{TransportMetadata, TransportMetadataView};
use crate::span::{deadline_after, Deadline, Span};
use crate::text::{joined, same_bytes, same_text};
use crate::uart::glasgow::device::shown_serial;
use crate::uart::glasgow::resources::GlasgowResource;
use crate::usb::{
    enumeration_error, enumeration_failed, UsbDescriptor, UsbDescriptorView,
};

use super::device::{
    describe_devices, listed, GlasgowDeviceInfo, GlasgowDeviceView, API_LEVEL, GLASGOW_PID,
    GLASGOW_VID,
};
use super::firmware::{plan_upload, plans, upload, RamWrite, UploadPlan};
use super::management::{
    acknowledgement, command_result, expect_ack, finish_fpga_load, fpga_status, load_progress,
    load_request, load_request_result, next_serial, pulls_payload, pulls_request, read_payload,
    read_register, read_request, register_value, reported_status, status_payload,
    status_request, voltage_payload, voltage_request, write_payload, write_register, Command,
    Exchange, ExchangeView, LoadProgress, LoadProgressView, Management,
};
use super::resource::{
    embedded_verdict, protocol, registers_valid, validate_resource, Registers, ResourceManifest,
    ValidatedResource,
};

verus! {

broadcast use vstd::string::group_string_axioms;

/// How long a device may take to come back with new firmware, in seconds.
pub const REENUMERATION_SECS: u64 = 10;

/// The pause between two looks for a device that should come back, in milliseconds.
pub const REENUMERATION_POLL_MILLIS: u64 = 100;

/// How long the FPGA may take to configure itself, in seconds.
pub const FPGA_SECS: u64 = 2;

/// The pause between two looks at the state of the FPGA, in milliseconds.
pub const FPGA_POLL_MILLIS: u64 = 10;

/// What an opened USB interface is for.
#[derive(Clone, Copy, Debug, PartialEq, Eq, Structural)]
pub enum Role {
    /// Firmware upload.
    Upload,
    /// Management commands.
    Management,
    /// FPGA configuration.
    Configuration,
    /// UART receive.
    Rx,
    /// UART transmit.
    Tx,
}

/// What the opening thread does next.
#[derive(Clone, Copy, Debug, PartialEq, Eq, Structural)]
pub enum Action {
    /// Open the device at a position of the last enumeration.
    OpenDevice { position: usize },
    /// Claim an interface of the open device.
    Claim { role: Role, interface: u8 },
    /// Select an alternate setting of a claimed interface.
    SelectAlternate { role: Role, setting: u8 },
    /// Open an IN endpoint of a claimed interface.
    OpenIn { role: Role, endpoint: u8 },
    /// Open an OUT endpoint of a claimed interface.
    OpenOut { role: Role, endpoint: u8 },
    /// Do the RAM write at an index of the upload plan.
    WriteRam { index: usize },
    /// Let go of the device and enumerate the bus.
    Enumerate,
    /// Send the command in flight and read its reply.
    Exchange,
    /// Write the bitstream to the configuration endpoint.
    WriteBitstream,
    /// Report the packet sizes of the UART endpoints.
    ReportPacketSizes,
    /// Wait for some milliseconds.
    Pause { millis: u64 },
    /// Nothing: the machine has come to its end.
    Finish,
}

/// What became of an action.
#[derive(Debug)]
pub enum Event {
    /// It was done.
    Done,
    /// It failed.
    Failed(String),
    /// A command was exchanged.
    Exchanged(Exchange),
    /// The bus was enumerated.
    Enumerated(Result<Vec<UsbDescriptor>, String>),
    /// The packet sizes of the UART endpoints.
    PacketSizes { rx: usize, tx: usize },
}

/// What became of an action, by views.
pub enum EventView {
    Done,
    Failed(Seq<char>),
    Exchanged(ExchangeView),
    Enumerated(Result<Seq<UsbDescriptorView>, Seq<char>>),
    PacketSizes { rx: usize, tx: usize },
}

impl DeepView for Event {
    type V = EventView;

    open spec fn deep_view(&self) -> EventView {
        match self {
            Event::Done => EventView::Done,
            Event::Failed(reason) => EventView::Failed(reason@),
            Event::Exchanged(exchange) => EventView::Exchanged(exchange.deep_view()),
            Event::Enumerated(Ok(found)) => EventView::Enumerated(Ok(found.deep_view())),
            Event::Enumerated(Err(reason)) => EventView::Enumerated(Err(reason@)),
            Event::PacketSizes { rx, tx } => EventView::PacketSizes { rx: *rx, tx: *tx },
        }
    }
}

/// What the machine waits for.
#[derive(Debug)]
pub enum Step {
    UploadOpen,
    UploadClaim,
    UploadWrite(usize),
    Enumerate(Deadline),
    EnumeratePause(Deadline),
    Open,
    ClaimManagement,
    EnableManagement,
    ManagementIn,
    ManagementOut,
    CheckStatus,
    ClaimConfiguration,
    SelectConfiguration,
    ConfigurationEndpoint,
    WriteBitstream,
    Load(Deadline),
    LoadPause(Deadline),
    CloseConfiguration,
    Confirm(Deadline),
    ConfirmPause(Deadline),
    ClaimRx,
    ClaimTx,
    EnableRx,
    EnableTx,
    RxEndpoint,
    TxEndpoint,
    PacketSizes,
    WriteBaud,
    SetVoltage,
    SetPulls,
    ReadErrors,
    ReadOverflow { errors: u32 },
    Opened { errors: u32, overflow: u32 },
    Failed(AppError),
}

/// What the machine waits for, by views.
pub enum StepView {
    UploadOpen,
    UploadClaim,
    UploadWrite(usize),
    Enumerate(nat),
    EnumeratePause(nat),
    Open,
    ClaimManagement,
    EnableManagement,
    ManagementIn,
    ManagementOut,
    CheckStatus,
    ClaimConfiguration,
    SelectConfiguration,
    ConfigurationEndpoint,
    WriteBitstream,
    Load(nat),
    LoadPause(nat),
    CloseConfiguration,
    Confirm(nat),
    ConfirmPause(nat),
    ClaimRx,
    ClaimTx,
    EnableRx,
    EnableTx,
    RxEndpoint,
    TxEndpoint,
    PacketSizes,
    WriteBaud,
    SetVoltage,
    SetPulls,
    ReadErrors,
    ReadOverflow { errors: u32 },
    Opened { errors: u32, overflow: u32 },
    Failed(ErrorView),
}

impl DeepView for Step {
    type V = StepView;

    open spec fn deep_view(&self) -> StepView {
        match self {
            Step::UploadOpen => StepView::UploadOpen,
            Step::UploadClaim => StepView::UploadClaim,
            Step::UploadWrite(index) => StepView::UploadWrite(*index),
            Step::Enumerate(deadline) => StepView::Enumerate(deadline@),
            Step::EnumeratePause(deadline) => StepView::EnumeratePause(deadline@),
            Step::Open => StepView::Open,
            Step::ClaimManagement => StepView::ClaimManagement,
            Step::EnableManagement => StepView::EnableManagement,
            Step::ManagementIn => StepView::ManagementIn,
            Step::ManagementOut => StepView::ManagementOut,
            Step::CheckStatus => StepView::CheckStatus,
            Step::ClaimConfiguration => StepView::ClaimConfiguration,
            Step::SelectConfiguration => StepView::SelectConfiguration,
            Step::ConfigurationEndpoint => StepView::ConfigurationEndpoint,
            Step::WriteBitstream => StepView::WriteBitstream,
            Step::Load(deadline) => StepView::Load(deadline@),
            Step::LoadPause(deadline) => StepView::LoadPause(deadline@),
            Step::CloseConfiguration => StepView::CloseConfiguration,
            Step::Confirm(deadline) => StepView::Confirm(deadline@),
            Step::ConfirmPause(deadline) => StepView::ConfirmPause(deadline@),
            Step::ClaimRx => StepView::ClaimRx,
            Step::ClaimTx => StepView::ClaimTx,
            Step::EnableRx => StepView::EnableRx,
            Step::EnableTx => StepView::EnableTx,
            Step::RxEndpoint => StepView::RxEndpoint,
            Step::TxEndpoint => StepView::TxEndpoint,
            Step::PacketSizes => StepView::PacketSizes,
            Step::WriteBaud => StepView::WriteBaud,
            Step::SetVoltage => StepView::SetVoltage,
            Step::SetPulls => StepView::SetPulls,
            Step::ReadErrors => StepView::ReadErrors,
            Step::ReadOverflow { errors } => StepView::ReadOverflow { errors: *errors },
            Step::Opened { errors, overflow } => StepView::Opened {
                errors: *errors,
                overflow: *overflow,
            },
            Step::Failed(error) => StepView::Failed(error.deep_view()),
        }
    }
}

/// The state of the machine, by views.
#[verifier::ext_equal]
pub struct ProvisionView {
    /// The device, which changes when it comes back with new firmware.
    pub device: GlasgowDeviceView,
    /// The serial number of the next management command.
    pub next: u8,
    /// The serial number of the command in flight.
    pub serial: u8,
    /// The payload of the command in flight.
    pub payload: Seq<u8>,
    pub step: StepView,
}

/// The action of a step.
pub open spec fn step_action(
    resource: ValidatedResource,
    position: usize,
    step: StepView,
) -> Action {
    let pipe = resource.manifest.pipe;
    match step {
        StepView::UploadOpen | StepView::Open => Action::OpenDevice { position },
        StepView::UploadClaim => Action::Claim { role: Role::Upload, interface: 0 },
        StepView::UploadWrite(index) => Action::WriteRam { index },
        StepView::Enumerate(_) => Action::Enumerate,
        StepView::EnumeratePause(_) => Action::Pause { millis: REENUMERATION_POLL_MILLIS },
        StepView::ClaimManagement => Action::Claim { role: Role::Management, interface: 0 },
        StepView::EnableManagement => Action::SelectAlternate {
            role: Role::Management,
            setting: 1,
        },
        StepView::ManagementIn => Action::OpenIn { role: Role::Management, endpoint: 0x81 },
        StepView::ManagementOut => Action::OpenOut { role: Role::Management, endpoint: 0x01 },
        StepView::ClaimConfiguration => Action::Claim { role: Role::Configuration, interface: 1 },
        StepView::SelectConfiguration => Action::SelectAlternate {
            role: Role::Configuration,
            setting: 3,
        },
        StepView::ConfigurationEndpoint => Action::OpenOut {
            role: Role::Configuration,
            endpoint: 0x02,
        },
        StepView::WriteBitstream => Action::WriteBitstream,
        StepView::LoadPause(_) | StepView::ConfirmPause(_) => Action::Pause {
            millis: FPGA_POLL_MILLIS,
        },
        StepView::CloseConfiguration => Action::SelectAlternate {
            role: Role::Configuration,
            setting: 0,
        },
        StepView::ClaimRx => Action::Claim { role: Role::Rx, interface: pipe.rx.interface },
        StepView::ClaimTx => Action::Claim { role: Role::Tx, interface: pipe.tx.interface },
        StepView::EnableRx => Action::SelectAlternate {
            role: Role::Rx,
            setting: pipe.rx.alternate_setting,
        },
        StepView::EnableTx => Action::SelectAlternate {
            role: Role::Tx,
            setting: pipe.tx.alternate_setting,
        },
        StepView::RxEndpoint => Action::OpenIn { role: Role::Rx, endpoint: pipe.rx.endpoint },
        StepView::TxEndpoint => Action::OpenOut { role: Role::Tx, endpoint: pipe.tx.endpoint },
        StepView::PacketSizes => Action::ReportPacketSizes,
        StepView::CheckStatus | StepView::Load(_) | StepView::Confirm(_) | StepView::WriteBaud
        | StepView::SetVoltage | StepView::SetPulls | StepView::ReadErrors
        | StepView::ReadOverflow { .. } => Action::Exchange,
        StepView::Opened { .. } | StepView::Failed(_) => Action::Finish,
    }
}

/// The access error that a failed action of a step gives, where `what` was attempted.
pub open spec fn access(what: Seq<char>, reason: Seq<char>) -> ErrorView {
    error_view(Category::Access, what + reason)
}

/// The error of a step whose action failed; a step that does not wait for a plain result has
/// none.
pub open spec fn step_error(device: GlasgowDeviceView, step: StepView, reason: Seq<char>) -> Option<
    ErrorView,
> {
    match step {
        StepView::UploadOpen => Some(
            access("cannot open Glasgow for firmware upload: "@, reason),
        ),
        StepView::UploadClaim => Some(
            access("cannot claim Glasgow for firmware upload: "@, reason),
        ),
        StepView::UploadWrite(_) => Some(access("Cypress RAM upload failed: "@, reason)),
        StepView::Open => Some(
            access(
                "cannot open Glasgow "@ + shown_serial(device.serial) + " at "@ + device.path
                    + ": "@,
                reason,
            ),
        ),
        StepView::ClaimManagement => Some(
            access("cannot claim Glasgow management interface: "@, reason),
        ),
        StepView::EnableManagement => Some(
            access("cannot enable Glasgow management interface: "@, reason),
        ),
        StepView::ManagementIn => Some(
            protocol("Glasgow management IN endpoint mismatch: "@ + reason),
        ),
        StepView::ManagementOut => Some(
            protocol("Glasgow management OUT endpoint mismatch: "@ + reason),
        ),
        StepView::ClaimConfiguration => Some(
            access("cannot claim Glasgow configuration interface: "@, reason),
        ),
        StepView::SelectConfiguration => Some(
            access("cannot select Glasgow FPGA configuration mode: "@, reason),
        ),
        StepView::ConfigurationEndpoint => Some(
            protocol("Glasgow configuration endpoint mismatch: "@ + reason),
        ),
        StepView::WriteBitstream => Some(access("Glasgow FPGA upload failed: "@, reason)),
        StepView::CloseConfiguration => Some(
            access("cannot close Glasgow configuration interface: "@, reason),
        ),
        StepView::ClaimRx => Some(access("cannot claim Glasgow UART RX interface: "@, reason)),
        StepView::ClaimTx => Some(access("cannot claim Glasgow UART TX interface: "@, reason)),
        StepView::EnableRx => Some(access("cannot enable Glasgow UART RX: "@, reason)),
        StepView::EnableTx => Some(access("cannot enable Glasgow UART TX: "@, reason)),
        StepView::RxEndpoint => Some(protocol("Glasgow UART RX endpoint mismatch: "@ + reason)),
        StepView::TxEndpoint => Some(protocol("Glasgow UART TX endpoint mismatch: "@ + reason)),
        _ => None,
    }
}

/// The machine at another step.
pub open spec fn at(p: ProvisionView, step: StepView) -> ProvisionView {
    ProvisionView { step, ..p }
}

/// The machine once it has failed.
pub open spec fn fail(p: ProvisionView, error: ErrorView) -> ProvisionView {
    at(p, StepView::Failed(error))
}

/// The machine at a step that waits for the reply to a command.
pub open spec fn send(p: ProvisionView, payload: Seq<u8>, step: StepView) -> ProvisionView {
    ProvisionView {
        next: next_serial(p.next),
        serial: p.next,
        payload,
        step,
        ..p
    }
}

/// The machine before the RAM write at `index`, or past the last one.
pub open spec fn uploading(
    resource: ValidatedResource,
    p: ProvisionView,
    now: nat,
    index: int,
) -> ProvisionView {
    let (writes, failure) = upload(resource.manifest.firmware.segments@);
    if index < writes.len() {
        at(p, StepView::UploadWrite(index as usize))
    } else {
        match failure {
            Some(error) => fail(p, error),
            None => at(
                p,
                StepView::Enumerate(
                    deadline_after(now, REENUMERATION_SECS as nat * 1_000_000_000),
                ),
            ),
        }
    }
}

/// The machine that asks for the configuration of the FPGA.
pub open spec fn load(
    resource: ValidatedResource,
    p: ProvisionView,
    deadline: nat,
) -> ProvisionView {
    match load_request_result(resource.embedded.bitstream@.len(), resource.bitstream_id@) {
        Err(error) => fail(p, error),
        Ok(payload) => send(p, payload, StepView::Load(deadline)),
    }
}

/// The machine after an action that was done.
pub open spec fn after_done(
    resource: ValidatedResource,
    p: ProvisionView,
    now: nat,
) -> ProvisionView {
    let fpga_deadline = deadline_after(now, FPGA_SECS as nat * 1_000_000_000);
    match p.step {
        StepView::UploadOpen => at(p, StepView::UploadClaim),
        StepView::UploadClaim => uploading(resource, p, now, 0),
        StepView::UploadWrite(index) => uploading(resource, p, now, index + 1),
        StepView::EnumeratePause(deadline) => at(p, StepView::Enumerate(deadline)),
        StepView::Open => at(p, StepView::ClaimManagement),
        StepView::ClaimManagement => at(p, StepView::EnableManagement),
        StepView::EnableManagement => at(p, StepView::ManagementIn),
        StepView::ManagementIn => at(p, StepView::ManagementOut),
        StepView::ManagementOut => send(p, status_payload(), StepView::CheckStatus),
        StepView::ClaimConfiguration => at(p, StepView::SelectConfiguration),
        StepView::SelectConfiguration => at(p, StepView::ConfigurationEndpoint),
        StepView::ConfigurationEndpoint => at(p, StepView::WriteBitstream),
        StepView::WriteBitstream => load(resource, p, fpga_deadline),
        StepView::LoadPause(deadline) => load(resource, p, deadline),
        StepView::CloseConfiguration => send(
            p,
            status_payload(),
            StepView::Confirm(fpga_deadline),
        ),
        StepView::ConfirmPause(deadline) => send(
            p,
            status_payload(),
            StepView::Confirm(deadline),
        ),
        StepView::ClaimRx => at(p, StepView::ClaimTx),
        StepView::ClaimTx => at(p, StepView::EnableRx),
        StepView::EnableRx => at(p, StepView::EnableTx),
        StepView::EnableTx => at(p, StepView::RxEndpoint),
        StepView::RxEndpoint => at(p, StepView::TxEndpoint),
        StepView::TxEndpoint => at(p, StepView::PacketSizes),
        _ => p,
    }
}

/// The machine after the reply `response` to the command in flight.
pub open spec fn after_response(
    resource: ValidatedResource,
    p: ProvisionView,
    now: nat,
    response: Seq<u8>,
) -> ProvisionView {
    let registers = resource.manifest.registers;
    match p.step {
        StepView::CheckStatus => match reported_status(response) {
            Err(error) => fail(p, error),
            Ok(id) => if id == Some(resource.bitstream_id@) {
                at(p, StepView::ClaimRx)
            } else {
                at(p, StepView::ClaimConfiguration)
            },
        },
        StepView::Load(deadline) => match load_progress(response, now >= deadline) {
            LoadProgressView::Done => at(p, StepView::CloseConfiguration),
            LoadProgressView::Wait => at(p, StepView::LoadPause(deadline)),
            LoadProgressView::Failed(error) => fail(p, error),
        },
        StepView::Confirm(deadline) => match reported_status(response) {
            Err(error) => fail(p, error),
            Ok(id) => if id == Some(resource.bitstream_id@) {
                at(p, StepView::ClaimRx)
            } else if now >= deadline {
                fail(
                    p,
                    error_view(
                        Category::Timeout,
                        "Glasgow FPGA did not report configuration complete"@,
                    ),
                )
            } else {
                at(p, StepView::ConfirmPause(deadline))
            },
        },
        StepView::WriteBaud => match acknowledgement(response, "register write"@) {
            Err(error) => fail(p, error),
            Ok(()) => send(p, voltage_payload(true), StepView::SetVoltage),
        },
        StepView::SetVoltage => match acknowledgement(
            response,
            "port-A voltage configuration"@,
        ) {
            Err(error) => fail(p, error),
            Ok(()) => send(p, pulls_payload(true), StepView::SetPulls),
        },
        StepView::SetPulls => match acknowledgement(response, "port-A pull configuration"@) {
            Err(error) => fail(p, error),
            Ok(()) => send(p, read_payload(registers.rx_errors), StepView::ReadErrors),
        },
        StepView::ReadErrors => match register_value(registers.rx_errors, response) {
            Err(error) => fail(p, error),
            Ok(errors) => send(
                p,
                read_payload(registers.rx_overflow),
                StepView::ReadOverflow { errors: errors as u32 },
            ),
        },
        StepView::ReadOverflow { errors } => match register_value(
            registers.rx_overflow,
            response,
        ) {
            Err(error) => fail(p, error),
            Ok(overflow) => at(p, StepView::Opened { errors, overflow: overflow as u32 }),
        },
        _ => p,
    }
}

/// Whether a step waits for the reply to a command.
pub open spec fn exchanges(step: StepView) -> bool {
    match step {
        StepView::CheckStatus | StepView::Load(_) | StepView::Confirm(_) | StepView::WriteBaud
        | StepView::SetVoltage | StepView::SetPulls | StepView::ReadErrors
        | StepView::ReadOverflow { .. } => true,
        _ => false,
    }
}

/// The machine after the command in flight was exchanged.
pub open spec fn after_exchange(
    resource: ValidatedResource,
    p: ProvisionView,
    now: nat,
    exchange: ExchangeView,
) -> ProvisionView {
    if exchanges(p.step) {
        match command_result(p.serial, exchange) {
            Err(error) => fail(p, error),
            Ok(response) => after_response(resource, p, now, response),
        }
    } else {
        p
    }
}

/// Whether one description names the same device as another.
pub open spec fn same_device(candidate: GlasgowDeviceView, device: GlasgowDeviceView) -> bool {
    candidate.serial == device.serial && candidate.path == device.path
}

/// Whether a device came back, at a position, as the first of those enumerated.
pub open spec fn back_at(
    devices: Seq<GlasgowDeviceView>,
    device: GlasgowDeviceView,
    position: int,
) -> bool {
    &&& 0 <= position < devices.len()
    &&& same_device(devices[position], device)
    &&& forall|i: int| 0 <= i < position ==> !same_device(#[trigger] devices[i], device)
}

/// The machine after a device came back with the firmware of `device`.
pub open spec fn after_return(
    resource: ValidatedResource,
    p: ProvisionView,
    device: GlasgowDeviceView,
) -> ProvisionView {
    let back = ProvisionView { device, ..p };
    if device.api_level != API_LEVEL || device.revision != resource.manifest.revision@ {
        fail(
            back,
            protocol("Glasgow firmware re-enumerated with incompatible API or revision"@),
        )
    } else {
        at(back, StepView::Open)
    }
}

/// Whether `q` is the machine after the bus was enumerated: the device is back, or is waited
/// for until the deadline.
pub open spec fn after_enumeration(
    resource: ValidatedResource,
    p: ProvisionView,
    now: nat,
    found: Result<Seq<UsbDescriptorView>, Seq<char>>,
    q: ProvisionView,
) -> bool {
    match p.step {
        StepView::Enumerate(deadline) => match found {
            Err(reason) => q == fail(p, enumeration_error(reason)),
            Ok(found) => {
                let devices = listed(found);
                if exists|i: int| 0 <= i < devices.len() && same_device(
                    #[trigger] devices[i],
                    p.device,
                ) {
                    exists|position: int| #[trigger]
                        back_at(devices, p.device, position) && q == after_return(
                            resource,
                            p,
                            devices[position],
                        )
                } else if now >= deadline {
                    q == fail(
                        p,
                        error_view(
                            Category::Timeout,
                            "Glasgow did not re-enumerate after FX2 firmware upload"@,
                        ),
                    )
                } else {
                    q == at(p, StepView::EnumeratePause(deadline))
                }
            },
        },
        _ => q == p,
    }
}

/// The machine after the packet sizes of the UART endpoints were reported.
pub open spec fn after_sizes(
    resource: ValidatedResource,
    baud: u32,
    p: ProvisionView,
    rx: usize,
    tx: usize,
) -> ProvisionView {
    let pipe = resource.manifest.pipe;
    if p.step != StepView::PacketSizes {
        p
    } else if rx != pipe.rx.max_packet || tx != pipe.tx.max_packet {
        fail(p, protocol("Glasgow UART endpoint max-packet mismatch"@))
    } else {
        match glasgow_baud(baud) {
            Err(error) => fail(p, error),
            Ok((divisor, _)) => send(
                p,
                write_payload(resource.manifest.registers.baud_divisor, divisor),
                StepView::WriteBaud,
            ),
        }
    }
}

/// Whether `q` is the machine after an event at `now`. An event that the step does not wait
/// for changes nothing.
pub open spec fn provision_next(
    resource: ValidatedResource,
    baud: u32,
    p: ProvisionView,
    now: nat,
    event: EventView,
    q: ProvisionView,
) -> bool {
    match event {
        EventView::Done => q == after_done(resource, p, now),
        EventView::Failed(reason) => q == (match step_error(p.device, p.step, reason) {
            Some(error) => fail(p, error),
            None => p,
        }),
        EventView::Exchanged(exchange) => q == after_exchange(resource, p, now, exchange),
        EventView::Enumerated(found) => after_enumeration(resource, p, now, found, q),
        EventView::PacketSizes { rx, tx } => q == after_sizes(resource, baud, p, rx, tx),
    }
}

/// Whether a step comes after the line rate was found to be representable.
pub open spec fn past_baud(step: StepView) -> bool {
    match step {
        StepView::WriteBaud | StepView::SetVoltage | StepView::SetPulls | StepView::ReadErrors
        | StepView::ReadOverflow { .. } | StepView::Opened { .. } => true,
        _ => false,
    }
}

/// The machine before its first action: a device with other firmware is brought up to date
/// first.
pub open spec fn provision_start(device: GlasgowDeviceView) -> StepView {
    if device.api_level == API_LEVEL {
        StepView::Open
    } else if device.native.vendor_id != GLASGOW_VID || device.native.product_id != GLASGOW_PID {
        StepView::Failed(protocol("refusing firmware upload to a non-Glasgow USB identity"@))
    } else {
        StepView::UploadOpen
    }
}

/// What is known of a UART that was opened on a device at a line rate.
pub open spec fn opened_metadata(device: GlasgowDeviceView, baud: u32) -> TransportMetadataView {
    TransportMetadataView {
        backend: Backend::Glasgow,
        serial: shown_serial(device.serial),
        path: Some(device.path),
        requested_baud: baud,
        actual_baud: (glasgow_baud(baud)->Ok_0).1,
        minimum_baud: MINIMUM_BAUD,
        maximum_baud: MAXIMUM_BAUD,
    }
}

/// The same error again.
fn copy_error(error: &AppError) -> (copy: AppError)
    ensures
        copy.deep_view() == error.deep_view(),
{
    match error {
        AppError::Selection(message) => AppError::Selection(message.clone()),
        AppError::Access(message) => AppError::Access(message.clone()),
        AppError::Protocol(message) => AppError::Protocol(message.clone()),
        AppError::Timeout(message) => AppError::Timeout(message.clone()),
        AppError::Validation(message) => AppError::Validation(message.clone()),
    }
}

/// Whether one description names the same device as another.
fn same_place(candidate: &GlasgowDeviceInfo, device: &GlasgowDeviceInfo) -> (same: bool)
    ensures
        same == same_device(candidate.deep_view(), device.deep_view()),
{
    same_text(&candidate.path, &device.path) && match (&candidate.serial, &device.serial) {
        (None, None) => true,
        (Some(left), Some(right)) => same_text(left, right),
        _ => false,
    }
}

/// A machine that opens one Glasgow UART.
#[derive(Debug)]
pub struct Provision {
    device: GlasgowDeviceInfo,
    resource: ValidatedResource,
    baud: u32,
    plan: UploadPlan,
    management: Management,
    command: Command,
    step: Step,
}

/// What an opened UART knows of itself.
#[derive(Debug)]
pub struct OpenedUart {
    pub metadata: TransportMetadata,
    /// The command counter of the management interface.
    pub management: Management,
    pub registers: Registers,
    /// The receive-error count at opening.
    pub rx_errors_baseline: u32,
    /// The receive-overflow count at opening.
    pub rx_overflow_baseline: u32,
}

impl DeepView for Provision {
    type V = ProvisionView;

    closed spec fn deep_view(&self) -> ProvisionView {
        ProvisionView {
            device: self.device.deep_view(),
            next: self.management.next(),
            serial: self.command.serial,
            payload: self.command.packet@.skip(1),
            step: self.step.deep_view(),
        }
    }
}

impl Provision {
    /// The resource that the device is provisioned with.
    pub closed spec fn resource(&self) -> ValidatedResource {
        self.resource
    }

    /// The requested line rate.
    pub closed spec fn baud(&self) -> u32 {
        self.baud
    }

    /// The registers can be reached, the plan is that of the firmware, the command in flight
    /// carries its serial number, and the line rate is set only where it is representable.
    pub closed spec fn wf(&self) -> bool {
        &&& registers_valid(self.resource.manifest.registers)
        &&& plans(self.plan, self.resource.manifest.firmware.segments@)
        &&& self.command.packet@.len() >= 1
        &&& self.command.packet@[0] == self.command.serial
        &&& upload(self.resource.manifest.firmware.segments@).0.len() <= usize::MAX
        &&& (self.step matches Step::UploadWrite(index) ==> index < self.plan.writes@.len())
        &&& (past_baud(self.step.deep_view()) ==> glasgow_baud(self.baud) is Ok)
    }

    /// A machine for a device and its resource, at the given line rate.
    pub fn new(device: GlasgowDeviceInfo, resource: ValidatedResource, baud: u32) -> (machine:
        Provision)
        requires
            registers_valid(resource.manifest.registers),
        ensures
            machine.wf(),
            machine.resource() == resource,
            machine.baud() == baud,
            machine.deep_view().device == device.deep_view(),
            machine.deep_view().next == 1,
            machine.deep_view().step == provision_start(device.deep_view()),
    {
        let step = if device.api_level == API_LEVEL {
            Step::Open
        } else if device.native.vendor_id != GLASGOW_VID || device.native.product_id
            != GLASGOW_PID {
            Step::Failed(
                AppError::Protocol(
                    "refusing firmware upload to a non-Glasgow USB identity".to_owned(),
                ),
            )
        } else {
            Step::UploadOpen
        };
        let plan = plan_upload(&resource.manifest.firmware.segments);
        assert(plan.writes.deep_view().len() == plan.writes.len());
        let packet: Vec<u8> = vec![0];
        assert(packet@ =~= seq![0u8]);
        let command = Command { serial: 0, packet };
        Provision {
            device,
            resource,
            baud,
            plan,
            management: Management::new(),
            command,
            step,
        }
    }

    /// A machine for a device, given the embedded resource for its revision and what was
    /// parsed of its manifest.
    pub fn begin(
        device: GlasgowDeviceInfo,
        embedded: &GlasgowResource,
        manifest: Result<ResourceManifest, String>,
        baud: u32,
    ) -> (result: Result<Provision, AppError>)
        ensures
            match (
                result,
                embedded_verdict(device.revision@, *embedded, manifest),
            ) {
                (Ok(machine), Ok((manifest, id))) => {
                    &&& machine.wf()
                    &&& machine.resource().embedded == *embedded
                    &&& machine.resource().manifest == manifest
                    &&& machine.resource().bitstream_id@ == id
                    &&& machine.baud() == baud
                    &&& machine.deep_view().device == device.deep_view()
                    &&& machine.deep_view().next == 1
                    &&& machine.deep_view().step == provision_start(device.deep_view())
                },
                (Err(error), Err(expected)) => error.deep_view() == expected,
                _ => false,
            },
    {
        match validate_resource(device.revision.as_str(), embedded, manifest) {
            Ok(resource) => Ok(Provision::new(device, resource, baud)),
            Err(error) => Err(error),
        }
    }

    /// What is to be done next.
    pub fn action(&self) -> (action: Action)
        ensures
            action == step_action(
                self.resource(),
                self.deep_view().device.native.position,
                self.deep_view().step,
            ),
    {
        let pipe = &self.resource.manifest.pipe;
        match &self.step {
            Step::UploadOpen | Step::Open => Action::OpenDevice {
                position: self.device.native.position,
            },
            Step::UploadClaim => Action::Claim { role: Role::Upload, interface: 0 },
            Step::UploadWrite(index) => Action::WriteRam { index: *index },
            Step::Enumerate(_) => Action::Enumerate,
            Step::EnumeratePause(_) => Action::Pause { millis: REENUMERATION_POLL_MILLIS },
            Step::ClaimManagement => Action::Claim { role: Role::Management, interface: 0 },
            Step::EnableManagement => Action::SelectAlternate {
                role: Role::Management,
                setting: 1,
            },
            Step::ManagementIn => Action::OpenIn { role: Role::Management, endpoint: 0x81 },
            Step::ManagementOut => Action::OpenOut { role: Role::Management, endpoint: 0x01 },
            Step::ClaimConfiguration => Action::Claim {
                role: Role::Configuration,
                interface: 1,
            },
            Step::SelectConfiguration => Action::SelectAlternate {
                role: Role::Configuration,
                setting: 3,
            },
            Step::ConfigurationEndpoint => Action::OpenOut {
                role: Role::Configuration,
                endpoint: 0x02,
            },
            Step::WriteBitstream => Action::WriteBitstream,
            Step::LoadPause(_) | Step::ConfirmPause(_) => Action::Pause {
                millis: FPGA_POLL_MILLIS,
            },
            Step::CloseConfiguration => Action::SelectAlternate {
                role: Role::Configuration,
                setting: 0,
            },
            Step::ClaimRx => Action::Claim { role: Role::Rx, interface: pipe.rx.interface },
            Step::ClaimTx => Action::Claim { role: Role::Tx, interface: pipe.tx.interface },
            Step::EnableRx => Action::SelectAlternate {
                role: Role::Rx,
                setting: pipe.rx.alternate_setting,
            },
            Step::EnableTx => Action::SelectAlternate {
                role: Role::Tx,
                setting: pipe.tx.alternate_setting,
            },
            Step::RxEndpoint => Action::OpenIn { role: Role::Rx, endpoint: pipe.rx.endpoint },
            Step::TxEndpoint => Action::OpenOut { role: Role::Tx, endpoint: pipe.tx.endpoint },
            Step::PacketSizes => Action::ReportPacketSizes,
            Step::CheckStatus | Step::Load(_) | Step::Confirm(_) | Step::WriteBaud
            | Step::SetVoltage | Step::SetPulls | Step::ReadErrors | Step::ReadOverflow { .. } =>
                Action::Exchange,
            Step::Opened { .. } | Step::Failed(_) => Action::Finish,
        }
    }

    /// The packet of the command in flight.
    pub fn packet(&self) -> (packet: &[u8])
        requires
            self.wf(),
        ensures
            packet@ == seq![self.deep_view().serial] + self.deep_view().payload,
    {
        assert(self.command.packet@ =~= seq![self.command.serial] + self.command.packet@.skip(1));
        self.command.packet.as_slice()
    }

    /// The RAM write that is to be done next, if one is.
    pub fn ram_write(&self) -> (write: Option<&RamWrite>)
        requires
            self.wf(),
        ensures
            match (write, self.deep_view().step) {
                (Some(write), StepView::UploadWrite(index)) => {
                    let writes = upload(self.resource().manifest.firmware.segments@).0;
                    index < writes.len() && write.deep_view() == writes[index as int]
                },
                (None, StepView::UploadWrite(_)) => false,
                (None, _) => true,
                (Some(_), _) => false,
            },
    {
        match self.step {
            Step::UploadWrite(index) => {
                assert(self.plan.writes.deep_view()[index as int]
                    == self.plan.writes@[index as int].deep_view());
                Some(&self.plan.writes[index])
            },
            _ => None,
        }
    }

    /// The bitstream of the resource.
    pub fn bitstream(&self) -> (bitstream: &'static [u8])
        ensures
            bitstream@ == self.resource().embedded.bitstream@,
    {
        self.resource.embedded.bitstream
    }

    /// What came of the provisioning: nothing while an action is outstanding, and otherwise
    /// the opened UART or the error.
    pub fn finish(self) -> (outcome: Option<Result<OpenedUart, AppError>>)
        requires
            self.wf(),
        ensures
            match (outcome, self.deep_view().step) {
                (Some(Ok(opened)), StepView::Opened { errors, overflow }) => {
                    &&& opened.metadata.deep_view() == opened_metadata(
                        self.deep_view().device,
                        self.baud(),
                    )
                    &&& opened.management.next() == self.deep_view().next
                    &&& opened.registers == self.resource().manifest.registers
                    &&& opened.rx_errors_baseline == errors
                    &&& opened.rx_overflow_baseline == overflow
                },
                (Some(Err(error)), StepView::Failed(expected)) => error.deep_view() == expected,
                (None, step) => step !is Opened && step !is Failed,
                _ => false,
            },
    {
        match self.step {
            Step::Opened { errors, overflow } => match baud_divisor(self.baud) {
                Err(error) => Some(Err(AppError::of(error))),
                Ok((_, actual)) => Some(
                    Ok(
                        OpenedUart {
                            metadata: TransportMetadata {
                                backend: Backend::Glasgow,
                                serial: match self.device.serial {
                                    Some(serial) => serial,
                                    None => "<no serial>".to_owned(),
                                },
                                path: Some(self.device.path),
                                requested_baud: self.baud,
                                actual_baud: actual,
                                minimum_baud: MINIMUM_BAUD,
                                maximum_baud: MAXIMUM_BAUD,
                            },
                            management: self.management,
                            registers: self.resource.manifest.registers,
                            rx_errors_baseline: errors,
                            rx_overflow_baseline: overflow,
                        },
                    ),
                ),
            },
            Step::Failed(error) => Some(Err(error)),
            _ => None,
        }
    }

    /// Frames a command, which `step` waits for.
    fn transmit(&mut self, payload: Vec<u8>, step: Step)
        requires
            old(self).wf(),
            payload@.len() <= 63,
            step !is UploadWrite,
            past_baud(step.deep_view()) ==> glasgow_baud(old(self).baud()) is Ok,
        ensures
            final(self).wf(),
            final(self).resource() == old(self).resource(),
            final(self).baud() == old(self).baud(),
            final(self).deep_view() == send(
                old(self).deep_view(),
                payload@,
                step.deep_view(),
            ),
    {
        match self.management.command(payload.as_slice()) {
            Ok(command) => {
                self.command = command;
                assert(self.command.packet@.skip(1) =~= payload@);
                self.step = step;
            },
            Err(_) => {},
        }
    }

    /// Goes to the RAM write at `index`, or past the last one.
    fn upload_at(&mut self, now: Span, index: usize)
        requires
            old(self).wf(),
            index <= old(self).plan.writes@.len(),
        ensures
            final(self).wf(),
            final(self).resource() == old(self).resource(),
            final(self).baud() == old(self).baud(),
            final(self).deep_view() == uploading(
                old(self).resource(),
                old(self).deep_view(),
                now@,
                index as int,
            ),
    {
        assert(self.plan.writes.deep_view().len() == self.plan.writes@.len());
        if index < self.plan.writes.len() {
            self.step = Step::UploadWrite(index);
            return ;
        }
        match &self.plan.failure {
            Some(error) => {
                self.step = Step::Failed(copy_error(error));
            },
            None => {
                self.step = Step::Enumerate(
                    Deadline::after(now, Span::from_secs(REENUMERATION_SECS)),
                );
            },
        }
    }

    /// Asks for the configuration of the FPGA.
    fn load_at(&mut self, deadline: Deadline)
        requires
            old(self).wf(),
        ensures
            final(self).wf(),
            final(self).resource() == old(self).resource(),
            final(self).baud() == old(self).baud(),
            final(self).deep_view() == load(
                old(self).resource(),
                old(self).deep_view(),
                deadline@,
            ),
    {
        match load_request(self.resource.embedded.bitstream.len(), self.resource.bitstream_id) {
            Err(error) => {
                self.step = Step::Failed(error);
            },
            Ok(payload) => {
                proof {
                    reveal_with_fuel(crate::glasgow::management::little_endian, 5);
                }
                self.transmit(payload, Step::Load(deadline));
            },
        }
    }

    /// Takes an action that was done.
    fn done(&mut self, now: Span)
        requires
            old(self).wf(),
        ensures
            final(self).wf(),
            final(self).resource() == old(self).resource(),
            final(self).baud() == old(self).baud(),
            final(self).deep_view() == after_done(
                old(self).resource(),
                old(self).deep_view(),
                now@,
            ),
    {
        assert(self.plan.writes.deep_view().len() == self.plan.writes@.len());
        match self.step {
            Step::UploadOpen => {
                self.step = Step::UploadClaim;
            },
            Step::UploadClaim => {
                self.upload_at(now, 0);
            },
            Step::UploadWrite(index) => {
                self.upload_at(now, index + 1);
            },
            Step::EnumeratePause(deadline) => {
                self.step = Step::Enumerate(deadline);
            },
            Step::Open => {
                self.step = Step::ClaimManagement;
            },
            Step::ClaimManagement => {
                self.step = Step::EnableManagement;
            },
            Step::EnableManagement => {
                self.step = Step::ManagementIn;
            },
            Step::ManagementIn => {
                self.step = Step::ManagementOut;
            },
            Step::ManagementOut => {
                self.transmit(status_request(), Step::CheckStatus);
            },
            Step::ClaimConfiguration => {
                self.step = Step::SelectConfiguration;
            },
            Step::SelectConfiguration => {
                self.step = Step::ConfigurationEndpoint;
            },
            Step::ConfigurationEndpoint => {
                self.step = Step::WriteBitstream;
            },
            Step::WriteBitstream => {
                self.load_at(Deadline::after(now, Span::from_secs(FPGA_SECS)));
            },
            Step::LoadPause(deadline) => {
                self.load_at(deadline);
            },
            Step::CloseConfiguration => {
                self.transmit(
                    status_request(),
                    Step::Confirm(Deadline::after(now, Span::from_secs(FPGA_SECS))),
                );
            },
            Step::ConfirmPause(deadline) => {
                self.transmit(status_request(), Step::Confirm(deadline));
            },
            Step::ClaimRx => {
                self.step = Step::ClaimTx;
            },
            Step::ClaimTx => {
                self.step = Step::EnableRx;
            },
            Step::EnableRx => {
                self.step = Step::EnableTx;
            },
            Step::EnableTx => {
                self.step = Step::RxEndpoint;
            },
            Step::RxEndpoint => {
                self.step = Step::TxEndpoint;
            },
            Step::TxEndpoint => {
                self.step = Step::PacketSizes;
            },
            _ => {},
        }
    }

    /// Takes an action that failed.
    fn failed(&mut self, reason: &str)
        requires
            old(self).wf(),
        ensures
            final(self).wf(),
            final(self).resource() == old(self).resource(),
            final(self).baud() == old(self).baud(),
            final(self).deep_view() == (match step_error(
                old(self).deep_view().device,
                old(self).deep_view().step,
                reason@,
            ) {
                Some(error) => fail(old(self).deep_view(), error),
                None => old(self).deep_view(),
            }),
    {
        let error = match &self.step {
            Step::UploadOpen => AppError::Access(
                joined("cannot open Glasgow for firmware upload: ", reason),
            ),
            Step::UploadClaim => AppError::Access(
                joined("cannot claim Glasgow for firmware upload: ", reason),
            ),
            Step::UploadWrite(_) => AppError::Access(
                joined("Cypress RAM upload failed: ", reason),
            ),
            Step::Open => {
                let mut message = "cannot open Glasgow ".to_owned();
                match &self.device.serial {
                    Some(serial) => {
                        message.append(serial);
                    },
                    None => {
                        message.append("<no serial>");
                    },
                }
                message.append(" at ");
                message.append(&self.device.path);
                message.append(": ");
                message.append(reason);
                AppError::Access(message)
            },
            Step::ClaimManagement => AppError::Access(
                joined("cannot claim Glasgow management interface: ", reason),
            ),
            Step::EnableManagement => AppError::Access(
                joined("cannot enable Glasgow management interface: ", reason),
            ),
            Step::ManagementIn => AppError::Protocol(
                joined("Glasgow management IN endpoint mismatch: ", reason),
            ),
            Step::ManagementOut => AppError::Protocol(
                joined("Glasgow management OUT endpoint mismatch: ", reason),
            ),
            Step::ClaimConfiguration => AppError::Access(
                joined("cannot claim Glasgow configuration interface: ", reason),
            ),
            Step::SelectConfiguration => AppError::Access(
                joined("cannot select Glasgow FPGA configuration mode: ", reason),
            ),
            Step::ConfigurationEndpoint => AppError::Protocol(
                joined("Glasgow configuration endpoint mismatch: ", reason),
            ),
            Step::WriteBitstream => AppError::Access(
                joined("Glasgow FPGA upload failed: ", reason),
            ),
            Step::CloseConfiguration => AppError::Access(
                joined("cannot close Glasgow configuration interface: ", reason),
            ),
            Step::ClaimRx => AppError::Access(
                joined("cannot claim Glasgow UART RX interface: ", reason),
            ),
            Step::ClaimTx => AppError::Access(
                joined("cannot claim Glasgow UART TX interface: ", reason),
            ),
            Step::EnableRx => AppError::Access(
                joined("cannot enable Glasgow UART RX: ", reason),
            ),
            Step::EnableTx => AppError::Access(
                joined("cannot enable Glasgow UART TX: ", reason),
            ),
            Step::RxEndpoint => AppError::Protocol(
                joined("Glasgow UART RX endpoint mismatch: ", reason),
            ),
            Step::TxEndpoint => AppError::Protocol(
                joined("Glasgow UART TX endpoint mismatch: ", reason),
            ),
            _ => {
                return ;
            },
        };
        self.step = Step::Failed(error);
    }

    /// Takes the reply to the command in flight.
    fn respond(&mut self, now: Span, response: Vec<u8>)
        requires
            old(self).wf(),
            exchanges(old(self).deep_view().step),
        ensures
            final(self).wf(),
            final(self).resource() == old(self).resource(),
            final(self).baud() == old(self).baud(),
            final(self).deep_view() == after_response(
                old(self).resource(),
                old(self).deep_view(),
                now@,
                response@,
            ),
    {
        match self.step {
            Step::CheckStatus => match self.configured(response.as_slice()) {
                Err(error) => {
                    self.step = Step::Failed(error);
                },
                Ok(true) => {
                    self.step = Step::ClaimRx;
                },
                Ok(false) => {
                    self.step = Step::ClaimConfiguration;
                },
            },
            Step::Load(deadline) => match finish_fpga_load(
                response.as_slice(),
                deadline.reached(now),
            ) {
                LoadProgress::Done => {
                    self.step = Step::CloseConfiguration;
                },
                LoadProgress::Wait => {
                    self.step = Step::LoadPause(deadline);
                },
                LoadProgress::Failed(error) => {
                    self.step = Step::Failed(error);
                },
            },
            Step::Confirm(deadline) => match self.configured(response.as_slice()) {
                Err(error) => {
                    self.step = Step::Failed(error);
                },
                Ok(true) => {
                    self.step = Step::ClaimRx;
                },
                Ok(false) => {
                    if deadline.reached(now) {
                        self.step = Step::Failed(
                            AppError::Timeout(
                                "Glasgow FPGA did not report configuration complete".to_owned(),
                            ),
                        );
                    } else {
                        self.step = Step::ConfirmPause(deadline);
                    }
                },
            },
            _ => {
                self.respond_setup(response);
            },
        }
    }

    /// Takes the reply to a command of the UART setup.
    fn respond_setup(&mut self, response: Vec<u8>)
        requires
            old(self).wf(),
            exchanges(old(self).deep_view().step),
            old(self).deep_view().step !is CheckStatus,
            old(self).deep_view().step !is Load,
            old(self).deep_view().step !is Confirm,
        ensures
            final(self).wf(),
            final(self).resource() == old(self).resource(),
            final(self).baud() == old(self).baud(),
            forall|now: nat|
                final(self).deep_view() == #[trigger] after_response(
                    old(self).resource(),
                    old(self).deep_view(),
                    now,
                    response@,
                ),
    {
        match self.step {
            Step::WriteBaud => match expect_ack(response.as_slice(), "register write") {
                Err(error) => {
                    self.step = Step::Failed(error);
                },
                Ok(()) => {
                    let payload = voltage_request(true);
                    proof {
                        reveal_with_fuel(crate::glasgow::management::little_endian, 3);
                    }
                    self.transmit(payload, Step::SetVoltage);
                },
            },
            Step::SetVoltage => match expect_ack(
                response.as_slice(),
                "port-A voltage configuration",
            ) {
                Err(error) => {
                    self.step = Step::Failed(error);
                },
                Ok(()) => {
                    self.transmit(pulls_request(true), Step::SetPulls);
                },
            },
            Step::SetPulls => match expect_ack(
                response.as_slice(),
                "port-A pull configuration",
            ) {
                Err(error) => {
                    self.step = Step::Failed(error);
                },
                Ok(()) => {
                    let payload = read_request(&self.resource.manifest.registers.rx_errors);
                    self.transmit(payload, Step::ReadErrors);
                },
            },
            Step::ReadErrors => match read_register(
                &self.resource.manifest.registers.rx_errors,
                response.as_slice(),
            ) {
                Err(error) => {
                    self.step = Step::Failed(error);
                },
                Ok(errors) => {
                    let payload = read_request(&self.resource.manifest.registers.rx_overflow);
                    self.transmit(payload, Step::ReadOverflow { errors });
                },
            },
            Step::ReadOverflow { errors } => match read_register(
                &self.resource.manifest.registers.rx_overflow,
                response.as_slice(),
            ) {
                Err(error) => {
                    self.step = Step::Failed(error);
                },
                Ok(overflow) => {
                    self.step = Step::Opened { errors, overflow };
                },
            },
            _ => {},
        }
    }

    /// Whether a reply reports the bitstream of the resource.
    fn configured(&self, response: &[u8]) -> (result: Result<bool, AppError>)
        ensures
            match (result, reported_status(response@)) {
                (Ok(same), Ok(id)) => same == (id == Some(self.resource().bitstream_id@)),
                (Err(error), Err(expected)) => error.deep_view() == expected,
                _ => false,
            },
    {
        match fpga_status(response) {
            Err(error) => Err(error),
            Ok(None) => Ok(false),
            Ok(Some(id)) => Ok(
                same_bytes(
                    vstd::array::array_as_slice(&id),
                    vstd::array::array_as_slice(&self.resource.bitstream_id),
                ),
            ),
        }
    }

    /// Takes the exchange of the command in flight.
    fn exchanged(&mut self, now: Span, exchange: Exchange)
        requires
            old(self).wf(),
        ensures
            final(self).wf(),
            final(self).resource() == old(self).resource(),
            final(self).baud() == old(self).baud(),
            final(self).deep_view() == after_exchange(
                old(self).resource(),
                old(self).deep_view(),
                now@,
                exchange.deep_view(),
            ),
    {
        let waiting = match &self.step {
            Step::CheckStatus | Step::Load(_) | Step::Confirm(_) | Step::WriteBaud
            | Step::SetVoltage | Step::SetPulls | Step::ReadErrors | Step::ReadOverflow { .. } =>
                true,
            _ => false,
        };
        if waiting {
            match self.command.complete(exchange) {
                Err(error) => {
                    self.step = Step::Failed(error);
                },
                Ok(response) => {
                    self.respond(now, response);
                },
            }
        }
    }

    /// Takes an enumeration of the bus.
    fn enumerated(&mut self, now: Span, found: Result<Vec<UsbDescriptor>, String>)
        requires
            old(self).wf(),
        ensures
            final(self).wf(),
            final(self).resource() == old(self).resource(),
            final(self).baud() == old(self).baud(),
            after_enumeration(
                old(self).resource(),
                old(self).deep_view(),
                now@,
                match found {
                    Ok(found) => Ok(found.deep_view()),
                    Err(reason) => Err(reason@),
                },
                final(self).deep_view(),
            ),
    {
        let deadline = match self.step {
            Step::Enumerate(deadline) => deadline,
            _ => {
                return ;
            },
        };
        let found = match found {
            Ok(found) => found,
            Err(reason) => {
                self.step = Step::Failed(AppError::of(enumeration_failed(&reason)));
                return ;
            },
        };
        let devices = describe_devices(&found);
        let ghost views = devices.deep_view();
        let ghost before = self.deep_view();
        let mut i: usize = 0;
        while i < devices.len()
            invariant
                i <= devices@.len(),
                views == devices.deep_view(),
                before == self.deep_view(),
                *self == *old(self),
                forall|k: int| 0 <= k < i ==> !same_device(#[trigger] views[k], before.device),
            ensures
                i <= devices@.len(),
                i < devices@.len() ==> same_device(views[i as int], before.device),
                i == devices@.len() || same_device(views[i as int], before.device),
            decreases devices@.len() - i,
        {
            assert(views[i as int] == devices@[i as int].deep_view());
            if same_place(&devices[i], &self.device) {
                break;
            }
            i = i + 1;
        }
        if i < devices.len() {
            let device = devices[i].clone();
            assert(back_at(views, before.device, i as int));
            assert(same_device(views[i as int], before.device));
            let compatible = device.api_level == API_LEVEL && same_text(
                &device.revision,
                &self.resource.manifest.revision,
            );
            self.device = device;
            if compatible {
                self.step = Step::Open;
            } else {
                self.step = Step::Failed(
                    AppError::Protocol(
                        "Glasgow firmware re-enumerated with incompatible API or revision".to_owned(),
                    ),
                );
            }
        } else if deadline.reached(now) {
            self.step = Step::Failed(
                AppError::Timeout(
                    "Glasgow did not re-enumerate after FX2 firmware upload".to_owned(),
                ),
            );
        } else {
            self.step = Step::EnumeratePause(deadline);
        }
    }

    /// Takes the packet sizes of the UART endpoints.
    fn sized(&mut self, rx: usize, tx: usize)
        requires
            old(self).wf(),
        ensures
            final(self).wf(),
            final(self).resource() == old(self).resource(),
            final(self).baud() == old(self).baud(),
            final(self).deep_view() == after_sizes(
                old(self).resource(),
                old(self).baud(),
                old(self).deep_view(),
                rx,
                tx,
            ),
    {
        match &self.step {
            Step::PacketSizes => {},
            _ => {
                return ;
            },
        }
        let pipe = &self.resource.manifest.pipe;
        if rx != pipe.rx.max_packet as usize || tx != pipe.tx.max_packet as usize {
            self.step = Step::Failed(
                AppError::Protocol("Glasgow UART endpoint max-packet mismatch".to_owned()),
            );
            return ;
        }
        match baud_divisor(self.baud) {
            Err(error) => {
                self.step = Step::Failed(AppError::of(error));
            },
            Ok((divisor, _)) => {
                let payload = write_register(
                    &self.resource.manifest.registers.baud_divisor,
                    divisor,
                );
                proof {
                    reveal_with_fuel(crate::glasgow::management::big_endian, 5);
                }
                self.transmit(payload, Step::WriteBaud);
            },
        }
    }

    /// Takes what became of the action, at `now`.
    pub fn advance(&mut self, now: Span, event: Event)
        requires
            old(self).wf(),
        ensures
            final(self).wf(),
            final(self).resource() == old(self).resource(),
            final(self).baud() == old(self).baud(),
            provision_next(
                old(self).resource(),
                old(self).baud(),
                old(self).deep_view(),
                now@,
                event.deep_view(),
                final(self).deep_view(),
            ),
    {
        match event {
            Event::Done => self.done(now),
            Event::Failed(reason) => self.failed(&reason),
            Event::Exchanged(exchange) => self.exchanged(now, exchange),
            Event::Enumerated(found) => self.enumerated(now, found),
            Event::PacketSizes { rx, tx } => self.sized(rx, tx),
        }
    }
}

}
