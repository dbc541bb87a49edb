//! C232HD UART discovery and opening.

use std::path::PathBuf;

use vstd::prelude::*;
use vstd::string::*;

use crate::cli::{port_conflict, DEFAULT_BAUD};
use crate::error::{result_view, Error, ErrorView};
use crate::order::{distinct_from, sorted_from};
use crate::text::{hex_word, hex_word_text};
use crate::usb::{copy_text, enumeration_error, UsbDescriptor};

pub mod course;
pub mod ftdi;
pub mod line;
pub mod opening;
pub mod usb;
pub mod vcp;

use usb::{cables, product_text, UsbDeviceInfo, UsbDeviceView, FTDI_PID, FTDI_VID};
use vcp::{port_devices, ports_error, PortRecord, VcpDevice, VcpDeviceView};

verus! {

broadcast use vstd::string::group_string_axioms;

/// C232HD transport backend.
#[derive(Clone, Copy, Debug, PartialEq, Eq, Structural)]
pub enum Backend {
    /// Native operating-system serial driver.
    Vcp,
    /// Direct FTDI USB protocol.
    Usb,
}

impl Default for Backend {
    fn default() -> (backend: Backend)
        ensures
            backend == Backend::Vcp,
    {
        Backend::Vcp
    }
}

/// Normalized descriptor-only C232HD device information.
#[derive(Debug)]
pub struct DeviceInfo {
    /// Discovery backend.
    pub backend: Backend,
    /// USB serial number.
    pub serial: String,
    /// USB vendor identifier.
    pub vendor_id: u16,
    /// USB product identifier.
    pub product_id: u16,
    /// USB product string.
    pub product: String,
    /// Backend attachment or device path.
    pub path: String,
    /// Stable operating-system path, when available.
    pub stable_path: Option<String>,
}

/// Device information, by views.
#[verifier::ext_equal]
pub struct DeviceInfoView {
    pub backend: Backend,
    pub serial: Seq<char>,
    pub vendor_id: u16,
    pub product_id: u16,
    pub product: Seq<char>,
    pub path: Seq<char>,
    pub stable_path: Option<Seq<char>>,
}

impl DeepView for DeviceInfo {
    type V = DeviceInfoView;

    open spec fn deep_view(&self) -> DeviceInfoView {
        DeviceInfoView {
            backend: self.backend,
            serial: self.serial@,
            vendor_id: self.vendor_id,
            product_id: self.product_id,
            product: self.product@,
            path: self.path@,
            stable_path: self.stable_path.deep_view(),
        }
    }
}

/// C232HD UART open parameters.
#[derive(Clone, Debug)]
pub struct OpenOptions {
    /// Transport backend.
    pub backend: Backend,
    /// Select by USB serial number.
    pub serial: Option<String>,
    /// Select a VCP device path.
    pub port: Option<PathBuf>,
    /// Requested line rate in bits per second.
    pub baud: u32,
}

impl Default for OpenOptions {
    fn default() -> (options: OpenOptions)
        ensures
            options.backend == Backend::Vcp,
            options.serial is None,
            options.port is None,
            options.baud == DEFAULT_BAUD,
    {
        OpenOptions { backend: Backend::Vcp, serial: None, port: None, baud: DEFAULT_BAUD }
    }
}

/// What was enumerated for a backend.
#[derive(Debug)]
pub enum Enumeration {
    /// Serial ports, for [`Backend::Vcp`].
    Serial(Result<Vec<PortRecord>, String>),
    /// USB devices, for [`Backend::Usb`].
    Usb(Result<Vec<UsbDescriptor>, String>),
}

/// A serial device in normalized form.
pub open spec fn normalized_vcp(device: VcpDeviceView) -> DeviceInfoView {
    DeviceInfoView {
        backend: Backend::Vcp,
        serial: device.serial,
        vendor_id: FTDI_VID,
        product_id: FTDI_PID,
        product: device.product,
        path: device.port,
        stable_path: device.stable_path,
    }
}

/// A USB device in normalized form.
pub open spec fn normalized_usb(device: UsbDeviceView) -> DeviceInfoView {
    DeviceInfoView {
        backend: Backend::Usb,
        serial: device.serial,
        vendor_id: FTDI_VID,
        product_id: FTDI_PID,
        product: product_text(),
        path: device.path,
        stable_path: None,
    }
}

/// Whether `listed` is what a backend lists of an enumeration: its devices in normalized form,
/// in their order.
pub open spec fn lists(found: Enumeration, listed: Seq<DeviceInfoView>) -> bool {
    match found {
        Enumeration::Serial(Ok(ports)) => exists|devices: Seq<VcpDeviceView>| #[trigger]
            distinct_from::<VcpDevice>(port_devices(ports@), devices) && listed
                == devices.map_values(|device: VcpDeviceView| normalized_vcp(device)),
        Enumeration::Usb(Ok(found)) => exists|devices: Seq<UsbDeviceView>| #[trigger]
            sorted_from::<UsbDeviceInfo>(cables(found.deep_view()), devices) && listed
                == devices.map_values(|device: UsbDeviceView| normalized_usb(device)),
        _ => false,
    }
}

/// The error for an enumeration that failed.
pub open spec fn listing_error(found: Enumeration) -> Option<ErrorView> {
    match found {
        Enumeration::Serial(Err(reason)) => Some(ports_error(reason@)),
        Enumeration::Usb(Err(reason)) => Some(enumeration_error(reason@)),
        _ => None,
    }
}

fn normalize_vcp(devices: Vec<VcpDevice>) -> (listed: Vec<DeviceInfo>)
    ensures
        listed.deep_view() == devices.deep_view().map_values(
            |device: VcpDeviceView| normalized_vcp(device),
        ),
{
    let ghost all = devices.deep_view().map_values(|device: VcpDeviceView| normalized_vcp(device));
    let mut listed: Vec<DeviceInfo> = Vec::new();
    let mut i: usize = 0;
    assert(listed.deep_view() =~= all.take(0));
    while i < devices.len()
        invariant
            i <= devices@.len(),
            all == devices.deep_view().map_values(
                |device: VcpDeviceView| normalized_vcp(device),
            ),
            listed.deep_view() == all.take(i as int),
        decreases devices@.len() - i,
    {
        let device = &devices[i];
        let ghost before = listed.deep_view();
        assert(devices.deep_view()[i as int] == device.deep_view());
        listed.push(
            DeviceInfo {
                backend: Backend::Vcp,
                serial: device.serial.clone(),
                vendor_id: FTDI_VID,
                product_id: FTDI_PID,
                product: device.product.clone(),
                path: device.port.clone(),
                stable_path: copy_text(&device.stable_path),
            },
        );
        assert(listed.deep_view() =~= before.push(normalized_vcp(device.deep_view())));
        assert(listed.deep_view() =~= all.take(i + 1));
        i = i + 1;
    }
    assert(all.take(i as int) =~= all);
    listed
}

fn normalize_usb(devices: Vec<UsbDeviceInfo>) -> (listed: Vec<DeviceInfo>)
    ensures
        listed.deep_view() == devices.deep_view().map_values(
            |device: UsbDeviceView| normalized_usb(device),
        ),
{
    let ghost all = devices.deep_view().map_values(|device: UsbDeviceView| normalized_usb(device));
    let mut listed: Vec<DeviceInfo> = Vec::new();
    let mut i: usize = 0;
    assert(listed.deep_view() =~= all.take(0));
    while i < devices.len()
        invariant
            i <= devices@.len(),
            all == devices.deep_view().map_values(
                |device: UsbDeviceView| normalized_usb(device),
            ),
            listed.deep_view() == all.take(i as int),
        decreases devices@.len() - i,
    {
        let device = &devices[i];
        let ghost before = listed.deep_view();
        assert(devices.deep_view()[i as int] == device.deep_view());
        listed.push(
            DeviceInfo {
                backend: Backend::Usb,
                serial: device.serial.clone(),
                vendor_id: FTDI_VID,
                product_id: FTDI_PID,
                product: usb::product().to_owned(),
                path: device.path.clone(),
                stable_path: None,
            },
        );
        assert(listed.deep_view() =~= before.push(normalized_usb(device.deep_view())));
        assert(listed.deep_view() =~= all.take(i + 1));
        i = i + 1;
    }
    assert(all.take(i as int) =~= all);
    listed
}

/// Lists C232HD descriptors from what was enumerated, without opening devices or detaching
/// drivers.
pub fn list_devices(found: Enumeration) -> (result: Result<Vec<DeviceInfo>, Error>)
    ensures
        match result {
            Ok(listed) => listing_error(found) is None && lists(found, listed.deep_view()),
            Err(error) => listing_error(found) == Some(error.deep_view()),
        },
{
    match found {
        Enumeration::Serial(ports) => match vcp::list_devices(ports) {
            Ok(devices) => Ok(normalize_vcp(devices)),
            Err(error) => Err(error),
        },
        Enumeration::Usb(descriptors) => match usb::list_devices(descriptors) {
            Ok(devices) => Ok(normalize_usb(devices)),
            Err(error) => Err(error),
        },
    }
}

/// Begins to open a port: decides, before any discovery, which backend's devices are to be
/// enumerated, and rejects a VCP path beside the direct USB backend.
pub fn open(options: &OpenOptions) -> (result: Result<Backend, Error>)
    ensures
        result_view(result) == (if options.backend == Backend::Usb && options.port is Some {
            Err(port_conflict())
        } else {
            Ok(options.backend)
        }),
{
    match options.backend {
        Backend::Vcp => Ok(Backend::Vcp),
        Backend::Usb => {
            if options.port.is_some() {
                return Err(Error::Selection("--port is valid only with --backend vcp".to_owned()));
            }
            Ok(Backend::Usb)
        },
    }
}

/// The line that describes a device in a listing: the stable path where there is one.
pub open spec fn listing_line(device: DeviceInfoView) -> Seq<char> {
    device.serial + " "@ + hex_word(device.vendor_id) + ":"@ + hex_word(device.product_id) + " "@
        + (match device.stable_path {
        Some(path) => path,
        None => device.path,
    }) + " "@ + device.product
}

impl DeviceInfo {
    /// The line that describes this device in a listing.
    pub fn listing(&self) -> (line: String)
        ensures
            line@ == listing_line(self.deep_view()),
    {
        let mut line = self.serial.clone();
        line.append(" ");
        line.append(&hex_word_text(self.vendor_id));
        line.append(":");
        line.append(&hex_word_text(self.product_id));
        line.append(" ");
        match &self.stable_path {
            Some(path) => {
                line.append(path);
            },
            None => {
                line.append(&self.path);
            },
        }
        line.append(" ");
        line.append(&self.product);
        line
    }
}

}
