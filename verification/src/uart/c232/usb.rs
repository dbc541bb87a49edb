//! Direct FT232H access: discovery, endpoint lookup, and configuration.

use vstd::prelude::*;
use vstd::string::*;

use crate::baud::{ftdi_baud, ftdi_high_speed_baud};
use crate::error::{error_view, Category, Error, ErrorView};
use crate::order::{
    device_key, key_precedes, keys_coincide, sort_items, sorted_from, DeviceKey, Ordered,
};
use crate::selection::{find_match, matching, Match, Serialled};
use crate::span::Span;
use crate::text::{borrowed_view, decimal, joined, push_decimal, same_text};
use crate::transfer::{drain_progress, drain_step, DrainProgress};
use crate::usb::{enumeration_error, enumeration_failed, UsbDescriptor, UsbDescriptorView};

use super::ftdi::{is_set, LINE_TEMT};

verus! {

broadcast use vstd::string::group_string_axioms;

pub const FTDI_VID: u16 = 0x0403;

pub const FTDI_PID: u16 = 0x6014;

/// The product string of the cable.
pub open spec fn product_text() -> Seq<char> {
    "C232HD-DDHSP-0"@
}

/// The product string of the cable.
pub fn product() -> (text: &'static str)
    ensures
        text@ == product_text(),
{
    "C232HD-DDHSP-0"
}

/// One cable that is reached directly.
#[derive(Debug)]
pub struct UsbDeviceInfo {
    pub serial: String,
    pub path: String,
    /// Position in the enumeration.
    pub native: usize,
}

/// One cable that is reached directly, by views.
#[verifier::ext_equal]
pub struct UsbDeviceView {
    pub serial: Seq<char>,
    pub path: Seq<char>,
    pub native: usize,
}

impl DeepView for UsbDeviceInfo {
    type V = UsbDeviceView;

    open spec fn deep_view(&self) -> UsbDeviceView {
        UsbDeviceView { serial: self.serial@, path: self.path@, native: self.native }
    }
}

impl Clone for UsbDeviceInfo {
    fn clone(&self) -> (copy: UsbDeviceInfo)
        ensures
            copy.deep_view() == self.deep_view(),
    {
        UsbDeviceInfo {
            serial: self.serial.clone(),
            path: self.path.clone(),
            native: self.native,
        }
    }
}

impl Ordered for UsbDeviceInfo {
    open spec fn key(view: UsbDeviceView) -> DeviceKey {
        device_key(Some(view.serial), view.path)
    }

    fn precedes(&self, other: &Self) -> (before: bool) {
        key_precedes(
            Some(self.serial.as_str()),
            &self.path,
            Some(other.serial.as_str()),
            &other.path,
        )
    }

    fn coincides(&self, other: &Self) -> (same: bool) {
        keys_coincide(
            Some(self.serial.as_str()),
            &self.path,
            Some(other.serial.as_str()),
            &other.path,
        )
    }
}

impl Serialled for UsbDeviceInfo {
    open spec fn serial(view: UsbDeviceView) -> Option<Seq<char>> {
        Some(view.serial)
    }

    fn has_serial(&self, serial: &str) -> (same: bool) {
        same_text(&self.serial, serial)
    }
}

/// Whether a descriptor is that of a cable with a serial number.
pub open spec fn is_cable(descriptor: UsbDescriptorView) -> bool {
    &&& descriptor.vendor_id == FTDI_VID
    &&& descriptor.product_id == FTDI_PID
    &&& descriptor.product == Some(product_text())
    &&& descriptor.serial is Some
}

/// The cables among the descriptors, in enumeration order.
pub open spec fn cables(found: Seq<UsbDescriptorView>) -> Seq<UsbDeviceView> {
    found.filter(|descriptor: UsbDescriptorView| is_cable(descriptor)).map_values(
        |descriptor: UsbDescriptorView|
            UsbDeviceView {
                serial: descriptor.serial->0,
                path: descriptor.bus_id,
                native: descriptor.native,
            },
    )
}

/// Whether an optional text is the product string of the cable.
fn is_product(text: &Option<String>) -> (same: bool)
    ensures
        same == (text.deep_view() == Some(product_text())),
{
    match text {
        Some(text) => same_text(text, product()),
        None => false,
    }
}

/// Lists cables from what enumeration found, by serial number and path.
pub fn list_devices(found: Result<Vec<UsbDescriptor>, String>) -> (result: Result<
    Vec<UsbDeviceInfo>,
    Error,
>)
    ensures
        match (found, result) {
            (Ok(found), Ok(devices)) => sorted_from::<UsbDeviceInfo>(
                cables(found.deep_view()),
                devices.deep_view(),
            ),
            (Err(reason), Err(error)) => error.deep_view() == enumeration_error(reason@),
            _ => false,
        },
{
    let found = match found {
        Ok(found) => found,
        Err(reason) => {
            return Err(enumeration_failed(&reason));
        },
    };
    let ghost views = found.deep_view();
    let mut devices: Vec<UsbDeviceInfo> = Vec::new();
    let mut i: usize = 0;
    proof {
        reveal(Seq::filter);
        assert(devices.deep_view() =~= cables(views.take(0)));
    }
    while i < found.len()
        invariant
            i <= found@.len(),
            views == found.deep_view(),
            devices.deep_view() == cables(views.take(i as int)),
        decreases found@.len() - i,
    {
        let descriptor = &found[i];
        let ghost before = devices.deep_view();
        proof {
            reveal(Seq::filter);
            assert(views[i as int] == descriptor.deep_view());
            assert(views.take(i + 1).drop_last() =~= views.take(i as int));
            assert(views.take(i + 1).last() == descriptor.deep_view());
        }
        if descriptor.vendor_id == FTDI_VID && descriptor.product_id == FTDI_PID && is_product(
            &descriptor.product,
        ) {
            if let Some(serial) = &descriptor.serial {
                devices.push(
                    UsbDeviceInfo {
                        serial: serial.clone(),
                        path: descriptor.bus_id.clone(),
                        native: descriptor.native,
                    },
                );
                assert(devices.deep_view() =~= before.push(devices@.last().deep_view()));
            }
        }
        assert(devices.deep_view() =~= cables(views.take(i + 1)));
        i = i + 1;
    }
    assert(views.take(i as int) =~= views);
    Ok(sort_items(devices))
}

/// The one cable that has the requested serial number.
pub open spec fn selected(devices: Seq<UsbDeviceView>, requested: Option<Seq<char>>) -> Result<
    UsbDeviceView,
    ErrorView,
> {
    let found = matching::<UsbDeviceInfo>(devices, requested);
    if found.len() == 0 {
        Err(
            error_view(
                Category::Selection,
                "no matching C232HD-DDHSP-0 USB device was found"@,
            ),
        )
    } else if found.len() == 1 {
        Ok(found[0])
    } else {
        Err(
            error_view(
                Category::Selection,
                "multiple C232HD-DDHSP-0 devices match; specify --serial"@,
            ),
        )
    }
}

/// A selection with the device and the error taken by their views.
pub open spec fn selection_view(result: Result<UsbDeviceInfo, Error>) -> Result<
    UsbDeviceView,
    ErrorView,
> {
    match result {
        Ok(device) => Ok(device.deep_view()),
        Err(error) => Err(error.deep_view()),
    }
}

/// Selects the one cable that has the requested serial number.
pub fn select_device(devices: &[UsbDeviceInfo], serial: Option<&str>) -> (result: Result<
    UsbDeviceInfo,
    Error,
>)
    ensures
        selection_view(result) == selected(devices.deep_view(), borrowed_view(serial)),
{
    match find_match(devices, serial) {
        Match::Missing => Err(
            Error::Selection("no matching C232HD-DDHSP-0 USB device was found".to_owned()),
        ),
        Match::Single(at) => Ok(devices[at].clone()),
        Match::Several => Err(
            Error::Selection(
                "multiple C232HD-DDHSP-0 devices match; specify --serial".to_owned(),
            ),
        ),
    }
}

/// One endpoint of an interface.
#[derive(Clone, Copy, Debug, PartialEq, Eq, Structural)]
pub struct EndpointInfo {
    pub address: u8,
    /// A bulk endpoint.
    pub bulk: bool,
    /// An endpoint towards the host.
    pub input: bool,
    pub max_packet: usize,
}

/// One alternate setting of an interface.
#[derive(Debug)]
pub struct AlternateSetting {
    pub interface: u8,
    pub alternate: u8,
    pub endpoints: Vec<EndpointInfo>,
}

/// The endpoints of a serial port.
#[derive(Clone, Copy, Debug, PartialEq, Eq, Structural)]
pub struct PortEndpoints {
    pub rx: u8,
    pub tx: u8,
    pub max_packet: usize,
}

/// The last endpoint that qualifies.
pub open spec fn last_endpoint(
    endpoints: Seq<EndpointInfo>,
    wanted: spec_fn(EndpointInfo) -> bool,
) -> Option<EndpointInfo>
    decreases endpoints.len(),
{
    if endpoints.len() == 0 {
        None
    } else if wanted(endpoints.last()) {
        Some(endpoints.last())
    } else {
        last_endpoint(endpoints.drop_last(), wanted)
    }
}

/// The serial port of a setting: its last bulk endpoint in each direction, and the packet
/// size of its last bulk endpoint. A setting without both directions has none.
pub open spec fn setting_port(endpoints: Seq<EndpointInfo>) -> Option<PortEndpoints> {
    let rx = last_endpoint(endpoints, |e: EndpointInfo| e.bulk && e.input);
    let tx = last_endpoint(endpoints, |e: EndpointInfo| e.bulk && !e.input);
    let any = last_endpoint(endpoints, |e: EndpointInfo| e.bulk);
    match (rx, tx, any) {
        (Some(rx), Some(tx), Some(any)) => Some(
            PortEndpoints { rx: rx.address, tx: tx.address, max_packet: any.max_packet },
        ),
        _ => None,
    }
}

/// Whether a setting is the default one of the first interface and has a serial port.
pub open spec fn is_port_setting(setting: AlternateSetting) -> bool {
    setting.interface == 0 && setting.alternate == 0 && setting_port(setting.endpoints@) is Some
}

/// Whether `at` is the position of the first setting with the serial port.
pub open spec fn port_at(settings: Seq<AlternateSetting>, at: int) -> bool {
    &&& 0 <= at < settings.len()
    &&& is_port_setting(settings[at])
    &&& forall|i: int| 0 <= i < at ==> !is_port_setting(#[trigger] settings[i])
}

/// Finds the serial port of a setting.
fn find_port(endpoints: &Vec<EndpointInfo>) -> (port: Option<PortEndpoints>)
    ensures
        port == setting_port(endpoints@),
{
    let mut rx: Option<u8> = None;
    let mut tx: Option<u8> = None;
    let mut packet: Option<usize> = None;
    let ghost is_rx = |e: EndpointInfo| e.bulk && e.input;
    let ghost is_tx = |e: EndpointInfo| e.bulk && !e.input;
    let ghost is_bulk = |e: EndpointInfo| e.bulk;
    let mut i: usize = 0;
    assert(endpoints@.take(0) =~= Seq::empty());
    while i < endpoints.len()
        invariant
            i <= endpoints@.len(),
            is_rx == (|e: EndpointInfo| e.bulk && e.input),
            is_tx == (|e: EndpointInfo| e.bulk && !e.input),
            is_bulk == (|e: EndpointInfo| e.bulk),
            match (rx, last_endpoint(endpoints@.take(i as int), is_rx)) {
                (Some(address), Some(endpoint)) => address == endpoint.address,
                (None, None) => true,
                _ => false,
            },
            match (tx, last_endpoint(endpoints@.take(i as int), is_tx)) {
                (Some(address), Some(endpoint)) => address == endpoint.address,
                (None, None) => true,
                _ => false,
            },
            match (packet, last_endpoint(endpoints@.take(i as int), is_bulk)) {
                (Some(size), Some(endpoint)) => size == endpoint.max_packet,
                (None, None) => true,
                _ => false,
            },
        decreases endpoints@.len() - i,
    {
        let endpoint = endpoints[i];
        proof {
            assert(endpoints@.take(i + 1).drop_last() =~= endpoints@.take(i as int));
            assert(endpoints@.take(i + 1).last() == endpoint);
        }
        if endpoint.bulk {
            if endpoint.input {
                rx = Some(endpoint.address);
            } else {
                tx = Some(endpoint.address);
            }
            packet = Some(endpoint.max_packet);
        }
        i = i + 1;
    }
    assert(endpoints@.take(i as int) =~= endpoints@);
    match (rx, tx, packet) {
        (Some(rx), Some(tx), Some(max_packet)) => Some(PortEndpoints { rx, tx, max_packet }),
        _ => None,
    }
}

/// The error for descriptors without a serial port.
pub open spec fn no_endpoints() -> ErrorView {
    error_view(Category::Protocol, "C232HD bulk endpoint descriptors are missing"@)
}

/// Whether a lookup found the first serial port among the settings, or the error for none.
pub open spec fn discovers(
    settings: Seq<AlternateSetting>,
    result: Result<PortEndpoints, ErrorView>,
) -> bool {
    match result {
        Ok(port) => exists|at: int| #[trigger]
            port_at(settings, at) && setting_port(settings[at].endpoints@) == Some(port),
        Err(error) => error == no_endpoints() && forall|i: int|
            0 <= i < settings.len() ==> !is_port_setting(#[trigger] settings[i]),
    }
}

/// Finds the serial port in the descriptors, which are given in their order.
pub fn discover_endpoints(settings: &Vec<AlternateSetting>) -> (result: Result<
    PortEndpoints,
    Error,
>)
    ensures
        discovers(settings@, crate::error::result_view(result)),
{
    let mut i: usize = 0;
    while i < settings.len()
        invariant
            i <= settings@.len(),
            forall|k: int| 0 <= k < i ==> !is_port_setting(#[trigger] settings@[k]),
        decreases settings@.len() - i,
    {
        if settings[i].interface == 0 && settings[i].alternate == 0 {
            if let Some(port) = find_port(&settings[i].endpoints) {
                assert(port_at(settings@, i as int));
                return Ok(port);
            }
        }
        i = i + 1;
    }
    Err(Error::Protocol("C232HD bulk endpoint descriptors are missing".to_owned()))
}

pub const SIO_RESET: u8 = 0;

pub const SIO_MODEM_CTRL: u8 = 1;

pub const SIO_SET_FLOW_CTRL: u8 = 2;

pub const SIO_SET_BAUD: u8 = 3;

pub const SIO_SET_DATA: u8 = 4;

pub const SIO_GET_MODEM_STATUS: u8 = 5;

pub const SIO_SET_LATENCY: u8 = 9;

pub const RESET_DEVICE: u16 = 0;

pub const PURGE_RX: u16 = 1;

pub const PURGE_TX: u16 = 2;

pub const MODEM_DTR_RTS_INACTIVE: u16 = 0x0300;

pub const INTERFACE_INDEX: u16 = 1;

/// How long one transfer may take, in milliseconds.
pub const IO_TIMEOUT_MILLIS: u64 = 50;

/// The pause between two looks at a draining transmitter, in milliseconds.
pub const DRAIN_POLL_MILLIS: u64 = 10;

/// A vendor control request without data.
#[derive(Clone, Copy, Debug, PartialEq, Eq, Structural)]
pub struct ControlRequest {
    pub request: u8,
    pub value: u16,
    pub index: u16,
}

/// A control request to the serial port.
pub open spec fn port_request(request: u8, value: u16) -> ControlRequest {
    ControlRequest { request, value, index: INTERFACE_INDEX }
}

/// The request that sets an encoded divisor: its low sixteen bits are the value, and those
/// above them stand in the high byte of the index.
pub open spec fn baud_request(encoded_divisor: u32) -> ControlRequest {
    ControlRequest {
        request: SIO_SET_BAUD,
        value: (encoded_divisor % 0x1_0000) as u16,
        index: ((encoded_divisor as int / 0x1_0000) % 256 * 256 + INTERFACE_INDEX) as u16,
    }
}

/// The requests before the line rate is set: reset, purge both directions, set the latency.
pub open spec fn reset_requests() -> Seq<ControlRequest> {
    seq![
        port_request(SIO_RESET, RESET_DEVICE),
        port_request(SIO_RESET, PURGE_RX),
        port_request(SIO_RESET, PURGE_TX),
        port_request(SIO_SET_LATENCY, 16),
    ]
}

/// The requests that configure the line: its rate, 8 data bits, no flow control, and both
/// modem lines inactive.
pub open spec fn line_requests(encoded_divisor: u32) -> Seq<ControlRequest> {
    seq![
        baud_request(encoded_divisor),
        port_request(SIO_SET_DATA, 8),
        port_request(SIO_SET_FLOW_CTRL, 0),
        port_request(SIO_MODEM_CTRL, MODEM_DTR_RTS_INACTIVE),
    ]
}

/// The requests of a configuration, and the line rate that results or the error that follows
/// them.
pub open spec fn configuration(requested: u32) -> (Seq<ControlRequest>, Result<u32, ErrorView>) {
    match ftdi_baud(requested) {
        Err(error) => (reset_requests(), Err(error)),
        Ok(baud) => (
            reset_requests() + line_requests(baud.encoded_divisor),
            Ok(baud.actual),
        ),
    }
}

fn request_of(request: u8, value: u16) -> (made: ControlRequest)
    ensures
        made == port_request(request, value),
{
    ControlRequest { request, value, index: INTERFACE_INDEX }
}

/// The requests that configure the cable for a line rate, and the rate that results or the
/// error that follows them.
pub fn configure_ftdi(requested_baud: u32) -> (plan: (Vec<ControlRequest>, Result<u32, Error>))
    ensures
        (plan.0@, crate::error::result_view(plan.1)) == configuration(requested_baud),
{
    let mut requests: Vec<ControlRequest> = Vec::new();
    requests.push(request_of(SIO_RESET, RESET_DEVICE));
    requests.push(request_of(SIO_RESET, PURGE_RX));
    requests.push(request_of(SIO_RESET, PURGE_TX));
    requests.push(request_of(SIO_SET_LATENCY, 16));
    assert(requests@ =~= reset_requests());
    match ftdi_high_speed_baud(requested_baud) {
        Err(error) => (requests, Err(error)),
        Ok(baud) => {
            let encoded = baud.encoded_divisor;
            let value: u16 = (encoded % 0x1_0000) as u16;
            let index: u16 = ((encoded >> 8) & 0xff00) as u16 | INTERFACE_INDEX;
            assert(((encoded >> 8) & 0xff00) as u16 | 1 == (encoded / 0x1_0000) % 256 * 256 + 1)
                by (bit_vector);
            requests.push(ControlRequest { request: SIO_SET_BAUD, value, index });
            requests.push(request_of(SIO_SET_DATA, 8));
            requests.push(request_of(SIO_SET_FLOW_CTRL, 0));
            requests.push(request_of(SIO_MODEM_CTRL, MODEM_DTR_RTS_INACTIVE));
            assert(requests@ =~= reset_requests() + line_requests(encoded));
            (requests, Ok(baud.actual))
        },
    }
}

/// The error for a control request that failed.
pub open spec fn control_error(request: u8, reason: Seq<char>) -> ErrorView {
    error_view(
        Category::Access,
        "FTDI control request "@ + decimal(request as nat) + " failed: "@ + reason,
    )
}

/// The error for a control request that failed.
pub fn control_failed(request: u8, reason: &str) -> (error: Error)
    ensures
        error.deep_view() == control_error(request, reason@),
{
    let mut message = "FTDI control request ".to_owned();
    push_decimal(&mut message, request as u128);
    message.append(" failed: ");
    message.append(reason);
    Error::Access(message)
}

/// What a modem-status response says of the transmitter.
pub open spec fn reported_empty(response: Result<Seq<u8>, Seq<char>>) -> Result<bool, ErrorView> {
    match response {
        Err(reason) => Err(
            error_view(Category::Access, "FTDI modem-status request failed: "@ + reason),
        ),
        Ok(bytes) => if bytes.len() != 2 {
            Err(
                error_view(
                    Category::Protocol,
                    "FTDI modem-status response is not two bytes"@,
                ),
            )
        } else {
            Ok(is_set(bytes[1], LINE_TEMT))
        },
    }
}

/// Reads out of a modem-status response whether the transmitter is empty.
pub fn modem_status(response: Result<Vec<u8>, String>) -> (result: Result<bool, Error>)
    ensures
        crate::error::result_view(result) == reported_empty(
            match response {
                Ok(bytes) => Ok(bytes@),
                Err(reason) => Err(reason@),
            },
        ),
{
    match response {
        Err(reason) => Err(Error::Access(joined("FTDI modem-status request failed: ", &reason))),
        Ok(bytes) => {
            if bytes.len() != 2 {
                return Err(
                    Error::Protocol("FTDI modem-status response is not two bytes".to_owned()),
                );
            }
            Ok(bytes[1] & LINE_TEMT != 0)
        },
    }
}

/// What the cable with a serial number is called in drain diagnostics.
pub open spec fn cable_name(serial: Seq<char>) -> Seq<char> {
    "C232HD USB serial "@ + serial
}

/// Decides what the state of the transmitter calls for while the cable drains.
pub fn drain_poll(empty: bool, overdue: bool, serial: &str, timeout: Span) -> (progress:
    DrainProgress)
    ensures
        progress.deep_view() == drain_progress(empty, overdue, cable_name(serial@), timeout@),
{
    let what = joined("C232HD USB serial ", serial);
    drain_step(empty, overdue, &what, timeout)
}

/// The error for a drain of a cable that was closed.
pub fn interface_closed() -> (error: Error)
    ensures
        error.deep_view() == error_view(Category::Access, "FTDI USB interface is closed"@),
{
    Error::Access("FTDI USB interface is closed".to_owned())
}

}
