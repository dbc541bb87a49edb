//! Native OS serial-driver backend for the C232HD-DDHSP-0: discovery, selection, and opening.

use vstd::prelude::*;
use vstd::string::*;

use crate::baud::ftdi_baud;
use crate::cli::{MAXIMUM_BAUD, MINIMUM_BAUD};
use crate::error::{error_view, Category, Error, ErrorView};
use crate::order::{
    bytes_before, bytes_precede, device_key, distinct_from, key_precedes, keys_coincide,
    sort_distinct, DeviceKey, Ordered,
};
use crate::selection::{counted, Match};
use crate::span::Span;
use crate::text::{
    borrowed_view, hex_word, hex_word_text, joined, parse_unsigned, parsed_unsigned, same_text,
    trim, trimmed,
};
use crate::transfer::{drain_progress, drain_step, DrainProgress};
use crate::uart::glasgow::device::shown_serial;
use crate::uart::transport::{Metadata, MetadataView};
use crate::usb::copy_text;

pub use super::usb::{product, product_text, FTDI_PID, FTDI_VID};
pub use crate::baud::{ftdi_high_speed_baud, BaudResult};
pub use crate::transfer::io_outcome;

verus! {

broadcast use vstd::string::group_string_axioms;

/// How long one transfer may take, in milliseconds.
pub const IO_TIMEOUT_MILLIS: u64 = 50;

/// The pause between two looks at a draining transmitter, in milliseconds.
pub const DRAIN_POLL_MILLIS: u64 = 10;

/// A serial device of the cable.
#[derive(Debug)]
pub struct VcpDevice {
    pub serial: String,
    pub vid: String,
    pub pid: String,
    pub product: String,
    pub port: String,
    pub stable_path: Option<String>,
}

/// A serial device of the cable, by views.
#[verifier::ext_equal]
pub struct VcpDeviceView {
    pub serial: Seq<char>,
    pub vid: Seq<char>,
    pub pid: Seq<char>,
    pub product: Seq<char>,
    pub port: Seq<char>,
    pub stable_path: Option<Seq<char>>,
}

impl DeepView for VcpDevice {
    type V = VcpDeviceView;

    open spec fn deep_view(&self) -> VcpDeviceView {
        VcpDeviceView {
            serial: self.serial@,
            vid: self.vid@,
            pid: self.pid@,
            product: self.product@,
            port: self.port@,
            stable_path: self.stable_path.deep_view(),
        }
    }
}

impl Clone for VcpDevice {
    fn clone(&self) -> (copy: VcpDevice)
        ensures
            copy.deep_view() == self.deep_view(),
    {
        VcpDevice {
            serial: self.serial.clone(),
            vid: self.vid.clone(),
            pid: self.pid.clone(),
            product: self.product.clone(),
            port: self.port.clone(),
            stable_path: copy_text(&self.stable_path),
        }
    }
}

impl Ordered for VcpDevice {
    open spec fn key(view: VcpDeviceView) -> DeviceKey {
        device_key(Some(view.serial), view.port)
    }

    fn precedes(&self, other: &Self) -> (before: bool) {
        key_precedes(
            Some(self.serial.as_str()),
            &self.port,
            Some(other.serial.as_str()),
            &other.port,
        )
    }

    fn coincides(&self, other: &Self) -> (same: bool) {
        keys_coincide(
            Some(self.serial.as_str()),
            &self.port,
            Some(other.serial.as_str()),
            &other.port,
        )
    }
}

/// What the system knows of the USB device behind a serial port.
#[derive(Debug)]
pub struct UsbMetadata {
    pub vid: Option<u16>,
    pub pid: Option<u16>,
    pub serial: Option<String>,
    pub product: Option<String>,
}

/// What the system knows of the USB device behind a serial port, by views.
#[verifier::ext_equal]
pub struct UsbMetadataView {
    pub vid: Option<u16>,
    pub pid: Option<u16>,
    pub serial: Option<Seq<char>>,
    pub product: Option<Seq<char>>,
}

impl DeepView for UsbMetadata {
    type V = UsbMetadataView;

    open spec fn deep_view(&self) -> UsbMetadataView {
        UsbMetadataView {
            vid: self.vid,
            pid: self.pid,
            serial: self.serial.deep_view(),
            product: self.product.deep_view(),
        }
    }
}

impl Default for UsbMetadata {
    /// Nothing is known.
    fn default() -> (metadata: UsbMetadata)
        ensures
            metadata.deep_view() == (UsbMetadataView {
                vid: None,
                pid: None,
                serial: None,
                product: None,
            }),
    {
        UsbMetadata { vid: None, pid: None, serial: None, product: None }
    }
}

/// The value of an attribute file: its contents without the white space around them, if there
/// is anything else.
pub open spec fn attribute(contents: Option<Seq<char>>) -> Option<Seq<char>> {
    match contents {
        Some(text) => if trimmed(text).len() == 0 {
            None
        } else {
            Some(trimmed(text))
        },
        None => None,
    }
}

/// Reads the value of an attribute out of the contents of its file.
pub fn read_trimmed(contents: &Option<String>) -> (value: Option<String>)
    ensures
        value.deep_view() == attribute(contents.deep_view()),
{
    match contents {
        Some(text) => {
            let value = trim(text);
            if value.as_str().unicode_len() == 0 {
                None
            } else {
                Some(value)
            }
        },
        None => None,
    }
}

/// The identifier that an attribute spells in hexadecimal.
pub open spec fn identifier(value: Option<Seq<char>>) -> Option<u16> {
    match value {
        Some(text) => match parsed_unsigned(vstd::utf8::encode_utf8(text), 16, 0xffff) {
            Some(id) => Some(id as u16),
            None => None,
        },
        None => None,
    }
}

fn parse_identifier(value: &Option<String>) -> (id: Option<u16>)
    ensures
        id == identifier(value.deep_view()),
{
    match value {
        Some(text) => match parse_unsigned(text.as_str().as_bytes(), 16, 0xffff) {
            Some(id) => Some(id as u16),
            None => None,
        },
        None => None,
    }
}

/// The contents of the attribute files in one directory of the device tree.
#[derive(Debug)]
pub struct Attributes {
    pub id_vendor: Option<String>,
    pub id_product: Option<String>,
    pub serial: Option<String>,
    pub product: Option<String>,
}

/// What a directory of the device tree says of a USB device: nothing unless it has a vendor
/// or a product identifier.
pub open spec fn directory_metadata(attributes: Attributes) -> Option<UsbMetadataView> {
    let vid = identifier(attribute(attributes.id_vendor.deep_view()));
    let pid = identifier(attribute(attributes.id_product.deep_view()));
    if vid is Some || pid is Some {
        Some(
            UsbMetadataView {
                vid,
                pid,
                serial: attribute(attributes.serial.deep_view()),
                product: attribute(attributes.product.deep_view()),
            },
        )
    } else {
        None
    }
}

/// Reads what a directory of the device tree says of a USB device. The first directory that
/// says anything, from the port upwards, is the one that counts.
pub fn linux_usb_metadata(attributes: &Attributes) -> (metadata: Option<UsbMetadata>)
    ensures
        match (metadata, directory_metadata(*attributes)) {
            (Some(metadata), Some(expected)) => metadata.deep_view() == expected,
            (None, None) => true,
            _ => false,
        },
{
    let vid = parse_identifier(&read_trimmed(&attributes.id_vendor));
    let pid = parse_identifier(&read_trimmed(&attributes.id_product));
    if vid.is_some() || pid.is_some() {
        Some(
            UsbMetadata {
                vid,
                pid,
                serial: read_trimmed(&attributes.serial),
                product: read_trimmed(&attributes.product),
            },
        )
    } else {
        None
    }
}

/// A link in the directory of stable device paths.
#[derive(Debug)]
pub struct StableLink {
    /// The bytes of its file name.
    pub name: Vec<u8>,
    /// Its path as a text.
    pub path: String,
    /// Whether it leads to the port.
    pub same: bool,
}

/// Whether `at` is the first link in name order that leads to the port.
pub open spec fn least_link(links: Seq<StableLink>, at: int) -> bool {
    &&& 0 <= at < links.len()
    &&& links[at].same
    &&& forall|i: int|
        0 <= i < links.len() && links[i].same ==> !bytes_before(
            (#[trigger] links[i]).name@,
            links[at].name@,
        )
    &&& forall|i: int|
        0 <= i < at && links[i].same ==> (#[trigger] links[i]).name@ != links[at].name@
}

/// Picks the stable path of a port: the first link in name order that leads to it.
pub fn stable_path(links: &Vec<StableLink>) -> (path: Option<String>)
    ensures
        match path {
            Some(path) => exists|at: int| #[trigger]
                least_link(links@, at) && links@[at].path@ == path@,
            None => forall|i: int| 0 <= i < links@.len() ==> !(#[trigger] links@[i]).same,
        },
{
    let mut best: Option<usize> = None;
    let mut i: usize = 0;
    while i < links.len()
        invariant
            i <= links@.len(),
            match best {
                Some(at) => at < i && least_link(links@.take(i as int), at as int),
                None => forall|k: int| 0 <= k < i ==> !(#[trigger] links@[k]).same,
            },
        decreases links@.len() - i,
    {
        let ghost seen = links@.take(i as int);
        let ghost more = links@.take(i + 1);
        let ghost previous = best;
        assert(more.len() == seen.len() + 1 && more[i as int] == links@[i as int]);
        assert(forall|k: int| 0 <= k < i ==> more[k] == seen[k] && seen[k] == links@[k]);
        if links[i].same {
            let better = match best {
                Some(at) => bytes_precede(links[i].name.as_slice(), links[at].name.as_slice()),
                None => true,
            };
            if better {
                best = Some(i);
            }
            proof {
                let name = more[i as int].name@;
                lemma_order(name, name, name);
                match previous {
                    Some(at) => {
                        let least = seen[at as int].name@;
                        assert(more[at as int] == seen[at as int]);
                        assert forall|k: int|
                            0 <= k < more.len() && more[k].same implies !bytes_before(
                            (#[trigger] more[k]).name@,
                            more[(best->0) as int].name@,
                        ) by {
                            if k < i {
                                assert(seen[k] == more[k]);
                                lemma_order(seen[k].name@, name, least);
                            }
                        }
                        assert forall|k: int|
                            0 <= k < best->0 && more[k].same implies (#[trigger] more[k]).name@
                            != more[(best->0) as int].name@ by {
                            if better {
                                assert(seen[k] == more[k]);
                                lemma_order(seen[k].name@, least, least);
                            } else {
                                assert(seen[k] == more[k]);
                            }
                        }
                        assert(least_link(more, (best->0) as int));
                    },
                    None => {
                        assert(least_link(more, i as int));
                    },
                }
            }
        } else {
            proof {
                match previous {
                    Some(at) => {
                        assert(more[at as int] == seen[at as int]);
                        assert forall|k: int|
                            0 <= k < more.len() && more[k].same implies !bytes_before(
                            (#[trigger] more[k]).name@,
                            more[at as int].name@,
                        ) by {
                            assert(seen[k] == more[k]);
                        }
                        assert forall|k: int| 0 <= k < at && more[k].same implies (
                        #[trigger] more[k]).name@ != more[at as int].name@ by {
                            assert(seen[k] == more[k]);
                        }
                        assert(least_link(more, at as int));
                    },
                    None => {},
                }
            }
        }
        i = i + 1;
    }
    assert(links@.take(i as int) =~= links@);
    match best {
        Some(at) => Some(links[at].path.clone()),
        None => None,
    }
}

/// The order of names is strict, total and transitive.
proof fn lemma_order(a: Seq<u8>, b: Seq<u8>, c: Seq<u8>)
    ensures
        !bytes_before(a, a),
        bytes_before(a, b) ==> !bytes_before(b, a),
        bytes_before(a, b) && bytes_before(b, c) ==> bytes_before(a, c),
{
    let key = |path: Seq<u8>| DeviceKey { serial: None, path };
    crate::order::key_order_is_total(key(a), key(b), key(c));
}

/// A serial port as enumeration and the device tree describe it.
#[derive(Debug)]
pub struct PortRecord {
    pub name: String,
    /// What enumeration says of the USB device, if the port belongs to one.
    pub usb: Option<UsbPortInfo>,
    /// What the device tree says of the USB device.
    pub sysfs: UsbMetadata,
    /// The stable path of the port.
    pub stable_path: Option<String>,
}

/// What enumeration says of the USB device behind a serial port.
#[derive(Debug)]
pub struct UsbPortInfo {
    pub vid: u16,
    pub pid: u16,
    pub serial_number: Option<String>,
    pub product: Option<String>,
}

/// What is known of the USB device behind a port. Enumeration comes before the device tree,
/// attribute by attribute.
pub open spec fn port_metadata(port: PortRecord) -> UsbMetadataView {
    match port.usb {
        Some(usb) => UsbMetadataView {
            vid: Some(usb.vid),
            pid: Some(usb.pid),
            serial: match usb.serial_number {
                Some(serial) => Some(serial@),
                None => port.sysfs.serial.deep_view(),
            },
            product: match usb.product {
                Some(product) => Some(product@),
                None => port.sysfs.product.deep_view(),
            },
        },
        None => port.sysfs.deep_view(),
    }
}

/// The cable behind a serial port, if one with a serial number is.
pub open spec fn port_device(port: PortRecord) -> Option<VcpDeviceView> {
    let usb = port_metadata(port);
    if usb.vid == Some(FTDI_VID) && usb.pid == Some(FTDI_PID) && usb.product == Some(
        product_text(),
    ) && usb.serial is Some {
        Some(
            VcpDeviceView {
                serial: usb.serial->0,
                vid: hex_word(FTDI_VID),
                pid: hex_word(FTDI_PID),
                product: product_text(),
                port: port.name@,
                stable_path: port.stable_path.deep_view(),
            },
        )
    } else {
        None
    }
}

/// The cables behind serial ports, in enumeration order.
pub open spec fn port_devices(ports: Seq<PortRecord>) -> Seq<VcpDeviceView>
    decreases ports.len(),
{
    if ports.len() == 0 {
        Seq::empty()
    } else {
        match port_device(ports.last()) {
            Some(device) => port_devices(ports.drop_last()).push(device),
            None => port_devices(ports.drop_last()),
        }
    }
}

/// One optional text, or another where it is missing.
fn first_text(first: Option<&Option<String>>, second: &Option<String>) -> (text: Option<String>)
    ensures
        text.deep_view() == (match first {
            Some(Some(text)) => Some(text@),
            _ => second.deep_view(),
        }),
{
    match first {
        Some(Some(text)) => Some(text.clone()),
        _ => copy_text(second),
    }
}

/// Describes the cable behind a serial port, if one with a serial number is.
fn describe_port(port: &PortRecord) -> (device: Option<VcpDevice>)
    ensures
        match (device, port_device(*port)) {
            (Some(device), Some(expected)) => device.deep_view() == expected,
            (None, None) => true,
            _ => false,
        },
{
    let (vid, pid, serial, found) = match &port.usb {
        Some(usb) => (
            Some(usb.vid),
            Some(usb.pid),
            first_text(Some(&usb.serial_number), &port.sysfs.serial),
            first_text(Some(&usb.product), &port.sysfs.product),
        ),
        None => (
            port.sysfs.vid,
            port.sysfs.pid,
            copy_text(&port.sysfs.serial),
            copy_text(&port.sysfs.product),
        ),
    };
    let vid_matches = match vid {
        Some(vid) => vid == FTDI_VID,
        None => false,
    };
    let pid_matches = match pid {
        Some(pid) => pid == FTDI_PID,
        None => false,
    };
    let product_matches = match &found {
        Some(found) => same_text(found, product()),
        None => false,
    };
    if !vid_matches || !pid_matches || !product_matches {
        return None;
    }
    match serial {
        None => None,
        Some(serial) => Some(
            VcpDevice {
                serial,
                vid: hex_word_text(FTDI_VID),
                pid: hex_word_text(FTDI_PID),
                product: product().to_owned(),
                port: port.name.clone(),
                stable_path: copy_text(&port.stable_path),
            },
        ),
    }
}

/// The error for serial ports that were not enumerated.
pub open spec fn ports_error(reason: Seq<char>) -> ErrorView {
    error_view(Category::Access, "cannot enumerate serial ports: "@ + reason)
}

/// Lists the cables behind serial ports, by serial number and port, each of them once.
pub fn list_devices(ports: Result<Vec<PortRecord>, String>) -> (result: Result<
    Vec<VcpDevice>,
    Error,
>)
    ensures
        match (ports, result) {
            (Ok(ports), Ok(devices)) => distinct_from::<VcpDevice>(
                port_devices(ports@),
                devices.deep_view(),
            ),
            (Err(reason), Err(error)) => error.deep_view() == ports_error(reason@),
            _ => false,
        },
{
    let ports = match ports {
        Ok(ports) => ports,
        Err(reason) => {
            return Err(Error::Access(joined("cannot enumerate serial ports: ", &reason)));
        },
    };
    let mut devices: Vec<VcpDevice> = Vec::new();
    let mut i: usize = 0;
    assert(devices.deep_view() =~= port_devices(ports@.take(0)));
    while i < ports.len()
        invariant
            i <= ports@.len(),
            devices.deep_view() == port_devices(ports@.take(i as int)),
        decreases ports@.len() - i,
    {
        proof {
            assert(ports@.take(i + 1).drop_last() =~= ports@.take(i as int));
            assert(ports@.take(i + 1).last() == ports@[i as int]);
        }
        let ghost before = devices.deep_view();
        if let Some(device) = describe_port(&ports[i]) {
            let ghost view = device.deep_view();
            devices.push(device);
            assert(devices.deep_view() =~= before.push(view));
        }
        i = i + 1;
    }
    assert(ports@.take(i as int) =~= ports@);
    Ok(sort_distinct(devices))
}

/// How two paths compare: as they are written, and once links are followed where both can be.
#[derive(Clone, Copy, Debug, PartialEq, Eq, Structural)]
pub struct PathComparison {
    pub equal: bool,
    pub canonical: Option<bool>,
}

/// Whether two paths name the same file.
pub open spec fn paths_agree(comparison: PathComparison) -> bool {
    comparison.equal || comparison.canonical == Some(true)
}

/// Whether two paths name the same file.
pub fn same_path(comparison: PathComparison) -> (same: bool)
    ensures
        same == paths_agree(comparison),
{
    if comparison.equal {
        return true;
    }
    match comparison.canonical {
        Some(same) => same,
        None => false,
    }
}

/// How the paths of a device compare with a requested one.
#[derive(Clone, Copy, Debug, PartialEq, Eq, Structural)]
pub struct DevicePaths {
    pub port: PathComparison,
    pub stable: Option<PathComparison>,
}

/// Whether a device is reached by the requested path.
pub open spec fn reached(paths: DevicePaths) -> bool {
    paths_agree(paths.port) || (paths.stable matches Some(stable) && paths_agree(stable))
}

/// Whether the device at `i` meets a request. A requested path comes as its comparison with
/// the paths of each device.
pub open spec fn wanted(
    devices: Seq<VcpDeviceView>,
    serial: Option<Seq<char>>,
    paths: Option<Seq<DevicePaths>>,
    i: int,
) -> bool {
    &&& serial is None || Some(devices[i].serial) == serial
    &&& match paths {
        Some(paths) => i < paths.len() && reached(paths[i]),
        None => true,
    }
}

/// The positions below `count` of the devices that meet a request.
pub open spec fn wanted_positions(
    devices: Seq<VcpDeviceView>,
    serial: Option<Seq<char>>,
    paths: Option<Seq<DevicePaths>>,
    count: int,
) -> Seq<int>
    decreases count,
{
    if count <= 0 {
        Seq::empty()
    } else {
        let rest = wanted_positions(devices, serial, paths, count - 1);
        if wanted(devices, serial, paths, count - 1) {
            rest.push(count - 1)
        } else {
            rest
        }
    }
}

/// The one device that meets a request.
pub open spec fn selected(
    devices: Seq<VcpDeviceView>,
    serial: Option<Seq<char>>,
    paths: Option<Seq<DevicePaths>>,
) -> Result<VcpDeviceView, ErrorView> {
    let found = wanted_positions(devices, serial, paths, devices.len() as int);
    if found.len() == 0 {
        if serial is Some && paths is Some {
            Err(
                error_view(
                    Category::Selection,
                    "--serial and --port do not identify the same C232HD-DDHSP-0"@,
                ),
            )
        } else {
            Err(error_view(Category::Selection, "no matching C232HD-DDHSP-0 was found"@))
        }
    } else if found.len() == 1 {
        Ok(devices[found[0]])
    } else {
        Err(
            error_view(
                Category::Selection,
                "multiple C232HD-DDHSP-0 devices match; specify --serial"@,
            ),
        )
    }
}

/// Whether the device at `at` is the only one that meets a request.
pub open spec fn only_wanted(
    devices: Seq<VcpDeviceView>,
    serial: Option<Seq<char>>,
    paths: Option<Seq<DevicePaths>>,
    at: int,
) -> bool {
    &&& 0 <= at < devices.len()
    &&& wanted(devices, serial, paths, at)
    &&& forall|i: int|
        0 <= i < devices.len() && i != at ==> !#[trigger] wanted(devices, serial, paths, i)
}

/// A device is selected exactly where it meets the request and no other device does.
pub proof fn selection_is_exclusive(
    devices: Seq<VcpDeviceView>,
    serial: Option<Seq<char>>,
    paths: Option<Seq<DevicePaths>>,
)
    ensures
        selected(devices, serial, paths) is Ok <==> exists|at: int| #[trigger]
            only_wanted(devices, serial, paths, at),
        forall|at: int| #[trigger]
            only_wanted(devices, serial, paths, at) ==> selected(devices, serial, paths) == Ok::<
                VcpDeviceView,
                ErrorView,
            >(devices[at]),
{
    let found = wanted_positions(devices, serial, paths, devices.len() as int);
    lemma_positions(devices, serial, paths, devices.len() as int);
    if found.len() == 1 {
        let at = found[0];
        assert(found.contains(at));
        assert forall|i: int|
            0 <= i < devices.len() && i != at implies !#[trigger] wanted(
            devices,
            serial,
            paths,
            i,
        ) by {
            if wanted(devices, serial, paths, i) {
                assert(found.contains(i));
            }
        }
        assert(only_wanted(devices, serial, paths, at));
    }
    assert forall|at: int| #[trigger] only_wanted(devices, serial, paths, at) implies found
        == seq![at] by {
        assert(found.contains(at));
        assert forall|k: int| 0 <= k < found.len() implies found[k] == at by {
            assert(found.contains(found[k]));
        }
        if found.len() >= 2 {
            assert(found[0] == found[1]);
        }
        assert(found =~= seq![at]);
    }
}

/// The positions of the devices that meet a request are just those, each of them once.
proof fn lemma_positions(
    devices: Seq<VcpDeviceView>,
    serial: Option<Seq<char>>,
    paths: Option<Seq<DevicePaths>>,
    count: int,
)
    requires
        0 <= count,
    ensures
        forall|i: int| #[trigger]
            wanted_positions(devices, serial, paths, count).contains(i) <==> 0 <= i < count
                && wanted(devices, serial, paths, i),
        forall|j: int, k: int|
            0 <= j < k < wanted_positions(devices, serial, paths, count).len() ==> (
            #[trigger] wanted_positions(devices, serial, paths, count)[j]) < (
            #[trigger] wanted_positions(devices, serial, paths, count)[k]),
    decreases count,
{
    if count > 0 {
        lemma_positions(devices, serial, paths, count - 1);
        let rest = wanted_positions(devices, serial, paths, count - 1);
        let all = wanted_positions(devices, serial, paths, count);
        assert forall|j: int, k: int| 0 <= j < k < all.len() implies (#[trigger] all[j]) < (
        #[trigger] all[k]) by {
            assert(rest.contains(rest[j]));
            if k < rest.len() {
                assert(rest[j] < rest[k]);
            }
        }
        assert forall|i: int| #[trigger] all.contains(i) <==> 0 <= i < count && wanted(
            devices,
            serial,
            paths,
            i,
        ) by {
            if all.contains(i) {
                let at = choose|at: int| 0 <= at < all.len() && all[at] == i;
                if at < rest.len() {
                    assert(rest[at] == i);
                    assert(rest.contains(i));
                }
            }
            if 0 <= i < count && wanted(devices, serial, paths, i) {
                if i < count - 1 {
                    assert(rest.contains(i));
                    let at = choose|at: int| 0 <= at < rest.len() && rest[at] == i;
                    assert(all[at] == i);
                } else {
                    assert(all[rest.len() as int] == i);
                }
            }
        }
    }
}

/// A selection with the device and the error taken by their views.
pub open spec fn selection_view(result: Result<VcpDevice, Error>) -> Result<
    VcpDeviceView,
    ErrorView,
> {
    match result {
        Ok(device) => Ok(device.deep_view()),
        Err(error) => Err(error.deep_view()),
    }
}

/// The comparisons of a requested path.
pub open spec fn paths_view(paths: Option<&Vec<DevicePaths>>) -> Option<Seq<DevicePaths>> {
    match paths {
        Some(paths) => Some(paths@),
        None => None,
    }
}

fn reaches(paths: &DevicePaths) -> (same: bool)
    ensures
        same == reached(*paths),
{
    if same_path(paths.port) {
        return true;
    }
    match paths.stable {
        Some(stable) => same_path(stable),
        None => false,
    }
}

/// Selects the one device that meets a request. `port` compares a requested path with the
/// paths of each device.
pub fn select_device(
    devices: &[VcpDevice],
    serial: Option<&str>,
    port: Option<&Vec<DevicePaths>>,
) -> (result: Result<VcpDevice, Error>)
    ensures
        selection_view(result) == selected(
            devices.deep_view(),
            borrowed_view(serial),
            paths_view(port),
        ),
{
    let ghost views = devices.deep_view();
    let ghost requested = borrowed_view(serial);
    let ghost paths = paths_view(port);
    let mut found = Match::Missing;
    let mut i: usize = 0;
    while i < devices.len()
        invariant
            i <= devices@.len(),
            views == devices.deep_view(),
            requested == borrowed_view(serial),
            paths == paths_view(port),
            match found {
                Match::Missing => wanted_positions(views, requested, paths, i as int).len() == 0,
                Match::Single(at) => at < i && wanted_positions(
                    views,
                    requested,
                    paths,
                    i as int,
                ) == seq![at as int],
                Match::Several => wanted_positions(views, requested, paths, i as int).len() >= 2,
            },
        decreases devices@.len() - i,
    {
        assert(views[i as int] == devices@[i as int].deep_view());
        let serial_matches = match serial {
            None => true,
            Some(serial) => same_text(&devices[i].serial, serial),
        };
        let path_matches = match port {
            None => true,
            Some(paths) => i < paths.len() && reaches(&paths[i]),
        };
        assert((serial_matches && path_matches) == wanted(views, requested, paths, i as int));
        let ghost before = wanted_positions(views, requested, paths, i as int);
        if serial_matches && path_matches {
            assert(before.len() == 0 ==> before.push(i as int) =~= seq![i as int]);
            found = counted(found, i);
        }
        i = i + 1;
    }
    match found {
        Match::Missing => {
            if serial.is_some() && port.is_some() {
                Err(
                    Error::Selection(
                        "--serial and --port do not identify the same C232HD-DDHSP-0".to_owned(),
                    ),
                )
            } else {
                Err(Error::Selection("no matching C232HD-DDHSP-0 was found".to_owned()))
            }
        },
        Match::Single(at) => Ok(devices[at].clone()),
        Match::Several => Err(
            Error::Selection(
                "multiple C232HD-DDHSP-0 devices match; specify --serial".to_owned(),
            ),
        ),
    }
}

/// What is done to open a serial port, in order.
#[derive(Clone, Copy, Debug, PartialEq, Eq, Structural)]
pub enum OpenStep {
    /// Open the port: 8 data bits, no parity, 1 stop bit, no flow control, DTR inactive,
    /// exclusively.
    Open,
    DeassertDtr,
    DeassertRts,
    ClearInput,
    /// Make a second handle, to write with.
    CloneHandle,
}

/// The step after another.
pub open spec fn step_after(step: OpenStep) -> Option<OpenStep> {
    match step {
        OpenStep::Open => Some(OpenStep::DeassertDtr),
        OpenStep::DeassertDtr => Some(OpenStep::DeassertRts),
        OpenStep::DeassertRts => Some(OpenStep::ClearInput),
        OpenStep::ClearInput => Some(OpenStep::CloneHandle),
        OpenStep::CloneHandle => None,
    }
}

impl OpenStep {
    /// The step after this one.
    pub fn next(self) -> (next: Option<OpenStep>)
        ensures
            next == step_after(self),
    {
        match self {
            OpenStep::Open => Some(OpenStep::DeassertDtr),
            OpenStep::DeassertDtr => Some(OpenStep::DeassertRts),
            OpenStep::DeassertRts => Some(OpenStep::ClearInput),
            OpenStep::ClearInput => Some(OpenStep::CloneHandle),
            OpenStep::CloneHandle => None,
        }
    }
}

/// What a step attempts.
pub open spec fn step_text(step: OpenStep) -> Seq<char> {
    match step {
        OpenStep::Open => "cannot open C232HD serial "@,
        OpenStep::DeassertDtr => "cannot deassert DTR for C232HD serial "@,
        OpenStep::DeassertRts => "cannot deassert RTS for C232HD serial "@,
        OpenStep::ClearInput => "cannot clear stale input for C232HD serial "@,
        OpenStep::CloneHandle => "cannot clone C232HD serial "@,
    }
}

/// The error of a step that failed.
pub open spec fn step_error(
    step: OpenStep,
    serial: Seq<char>,
    path: Seq<char>,
    reason: Seq<char>,
) -> ErrorView {
    error_view(
        Category::Access,
        step_text(step) + serial + " at "@ + path + ": "@ + reason,
    )
}

/// The path that a device is opened by: the requested one, else the stable one, else that of
/// the port.
pub open spec fn opening_path(device: VcpDeviceView, explicit: Option<Seq<char>>) -> Seq<char> {
    match explicit {
        Some(path) => path,
        None => match device.stable_path {
            Some(path) => path,
            None => device.port,
        },
    }
}

/// How a device is opened.
#[derive(Debug)]
pub struct VcpOpening {
    /// The path that it is opened by.
    pub path: String,
    pub serial: String,
    pub requested_baud: u32,
    pub actual_baud: u32,
}

/// What is known of an opened serial port.
pub open spec fn vcp_metadata(
    serial: Seq<char>,
    path: Seq<char>,
    requested: u32,
    actual: u32,
) -> MetadataView {
    MetadataView {
        backend: "vcp"@,
        serial: Some(serial),
        path: Some(path),
        requested_baud: requested,
        actual_baud: actual,
        minimum_baud: MINIMUM_BAUD,
        maximum_baud: MAXIMUM_BAUD,
    }
}

impl VcpOpening {
    /// How a device is opened at a line rate, by a requested path if there is one.
    pub fn open(device: &VcpDevice, requested_baud: u32, explicit_port: Option<&str>) -> (result:
        Result<VcpOpening, Error>)
        ensures
            match (result, ftdi_baud(requested_baud)) {
                (Ok(opening), Ok(baud)) => {
                    &&& opening.path@ == opening_path(
                        device.deep_view(),
                        borrowed_view(explicit_port),
                    )
                    &&& opening.serial@ == device.deep_view().serial
                    &&& opening.requested_baud == requested_baud
                    &&& opening.actual_baud == baud.actual
                },
                (Err(error), Err(expected)) => error.deep_view() == expected,
                _ => false,
            },
    {
        match ftdi_high_speed_baud(requested_baud) {
            Err(error) => Err(error),
            Ok(baud) => {
                let path = match explicit_port {
                    Some(path) => path.to_owned(),
                    None => match &device.stable_path {
                        Some(path) => path.clone(),
                        None => device.port.clone(),
                    },
                };
                Ok(
                    VcpOpening {
                        path,
                        serial: device.serial.clone(),
                        requested_baud,
                        actual_baud: baud.actual,
                    },
                )
            },
        }
    }

    /// The error of a step that failed.
    pub fn failed(&self, step: OpenStep, reason: &str) -> (error: Error)
        ensures
            error.deep_view() == step_error(step, self.serial@, self.path@, reason@),
    {
        let what = match step {
            OpenStep::Open => "cannot open C232HD serial ",
            OpenStep::DeassertDtr => "cannot deassert DTR for C232HD serial ",
            OpenStep::DeassertRts => "cannot deassert RTS for C232HD serial ",
            OpenStep::ClearInput => "cannot clear stale input for C232HD serial ",
            OpenStep::CloneHandle => "cannot clone C232HD serial ",
        };
        let mut message = joined(what, &self.serial);
        message.append(" at ");
        message.append(&self.path);
        message.append(": ");
        message.append(reason);
        Error::Access(message)
    }

    /// What is known of the serial port once it is open.
    pub fn metadata(&self) -> (metadata: Metadata)
        ensures
            metadata.deep_view() == vcp_metadata(
                self.serial@,
                self.path@,
                self.requested_baud,
                self.actual_baud,
            ),
    {
        Metadata {
            backend: "vcp",
            serial: Some(self.serial.clone()),
            path: Some(self.path.clone()),
            requested_baud: self.requested_baud,
            actual_baud: self.actual_baud,
            minimum_baud: MINIMUM_BAUD,
            maximum_baud: MAXIMUM_BAUD,
        }
    }
}

/// The error for an output queue that cannot be inspected.
pub open spec fn queue_error(serial: Option<Seq<char>>, reason: Seq<char>) -> ErrorView {
    error_view(
        Category::Access,
        "cannot inspect C232HD output queue for serial "@ + shown_serial(serial) + ": "@ + reason,
    )
}

fn serial_or_none(serial: Option<&str>) -> (text: &str)
    ensures
        text@ == shown_serial(borrowed_view(serial)),
{
    match serial {
        Some(serial) => serial,
        None => "<no serial>",
    }
}

/// The error for an output queue that cannot be inspected.
pub fn queue_failed(serial: Option<&str>, reason: &str) -> (error: Error)
    ensures
        error.deep_view() == queue_error(borrowed_view(serial), reason@),
{
    let mut message = joined(
        "cannot inspect C232HD output queue for serial ",
        serial_or_none(serial),
    );
    message.append(": ");
    message.append(reason);
    Error::Access(message)
}

/// Decides what the number of queued bytes calls for while the port drains.
pub fn drain_poll(queued: u32, overdue: bool, serial: Option<&str>, timeout: Span) -> (progress:
    DrainProgress)
    ensures
        progress.deep_view() == drain_progress(
            queued == 0,
            overdue,
            "C232HD serial "@ + shown_serial(borrowed_view(serial)),
            timeout@,
        ),
{
    let what = joined("C232HD serial ", serial_or_none(serial));
    drain_step(queued == 0, overdue, &what, timeout)
}

}
