use std::path::PathBuf;

use glasgow_tool::baud::baud_divisor;
use glasgow_tool::c232::usb::{strip_ftdi_status, transport_metadata};
use glasgow_tool::error::{Category, Error};
use glasgow_tool::events::Backend as EventBackend;
use glasgow_tool::span::Span;
use glasgow_tool::transfer::DrainProgress;
use glasgow_tool::uart::c232::ftdi::{
    read_timed_out, strip_ftdi_status_from, write_outcome, UsbReceiver,
};
use glasgow_tool::uart::c232::opening::{
    detach_refused, offers_again, Action, Event, UsbOpening, ATTACH_ATTEMPTS,
};
use glasgow_tool::uart::c232::usb::{
    self, configure_ftdi, discover_endpoints, interface_closed, modem_status, AlternateSetting,
    EndpointInfo, PortEndpoints, UsbDeviceInfo,
};
use glasgow_tool::uart::c232::vcp::{
    self, ftdi_high_speed_baud, linux_usb_metadata, read_trimmed, same_path, select_device,
    stable_path, Attributes, DevicePaths, OpenStep, PathComparison, PortRecord, StableLink,
    UsbMetadata, UsbPortInfo, VcpDevice, VcpOpening,
};
use glasgow_tool::uart::c232::{list_devices, open, Backend, Enumeration, OpenOptions};
use glasgow_tool::uart::{IoError, IoErrorKind, TransferFailureKind};
use glasgow_tool::usb::UsbDescriptor;

#[test]
fn usb_open_rejects_a_vcp_path_before_discovery() {
    let result = open(&OpenOptions {
        backend: Backend::Usb,
        port: Some(PathBuf::from("/dev/ttyUSB0")),
        ..OpenOptions::default()
    });
    assert!(matches!(result, Err(Error::Selection(_))));
}

#[test]
fn opening_names_the_backend_to_enumerate() {
    assert_eq!(open(&OpenOptions::default()).unwrap(), Backend::Vcp);
    let usb = OpenOptions {
        backend: Backend::Usb,
        ..OpenOptions::default()
    };
    assert_eq!(open(&usb).unwrap(), Backend::Usb);
    let vcp = OpenOptions {
        port: Some(PathBuf::from("/dev/ttyUSB0")),
        ..OpenOptions::default()
    };
    assert_eq!(open(&vcp).unwrap(), Backend::Vcp);
    assert_eq!(OpenOptions::default().baud, 115_200);
}

#[test]
fn baud_boundaries_enforce_two_percent_error() {
    let low = ftdi_high_speed_baud(9_600).unwrap();
    assert!(low.actual.abs_diff(9_600) * 100 <= 9_600 * 2);
    let high = ftdi_high_speed_baud(12_000_000).unwrap();
    assert_eq!(high.actual, 12_000_000);
    assert_ne!(high.encoded_divisor & 0x2_0000, 0);
    assert!(ftdi_high_speed_baud(10_000_000).is_err());
    assert!(ftdi_high_speed_baud(9_599).is_err());
    assert!(ftdi_high_speed_baud(12_000_001).is_err());
}

#[test]
fn ftdi_divisors_are_encoded_in_eighths() {
    let baud = ftdi_high_speed_baud(115_200).unwrap();
    assert_eq!(baud.divisor_eighths, 833);
    assert_eq!(baud.encoded_divisor, 0x2_0000 | 104 | (3 << 14));
    assert_eq!(baud.actual, 115_246);
    let baud = ftdi_high_speed_baud(6_000_000).unwrap();
    assert_eq!((baud.divisor_eighths, baud.encoded_divisor), (16, 0x2_0002));
    let baud = ftdi_high_speed_baud(8_000_000).unwrap();
    assert_eq!((baud.divisor_eighths, baud.encoded_divisor), (12, 0x2_0001));
    let error = ftdi_high_speed_baud(10_000_000).unwrap_err();
    assert_eq!(error.category(), Category::Validation);
    assert_eq!(
        error.message(),
        "requested baud 10000000 is represented as 8000000, exceeding 2% error"
    );
    assert_eq!(
        ftdi_high_speed_baud(9_599).unwrap_err().message(),
        "baud rate must be between 9600 and 12000000"
    );
    for rate in [9_600, 57_600, 230_400, 1_000_000, 3_000_000] {
        let actual = ftdi_high_speed_baud(rate).unwrap().actual;
        assert!(u64::from(actual.abs_diff(rate)) * 100 <= 2 * u64::from(rate));
    }
    assert_eq!(ftdi_high_speed_baud(8_163_265).unwrap().actual, 8_000_000);
    assert!(ftdi_high_speed_baud(8_163_266).is_err());
    assert_eq!(
        ftdi_high_speed_baud(8_164_000).unwrap_err().message(),
        "requested baud 8164000 is represented as 8000000, exceeding 2% error"
    );
}

#[test]
fn glasgow_divisors_are_rounded() {
    assert_eq!(baud_divisor(115_200).unwrap(), (417, 115_107));
    assert_eq!(baud_divisor(9_600).unwrap(), (5_000, 9_600));
    assert_eq!(baud_divisor(12_000_000).unwrap(), (4, 12_000_000));
    let error = baud_divisor(11_000_000).unwrap_err();
    assert_eq!(
        error.message(),
        "requested baud 11000000 is represented as 12000000, exceeding 2% error"
    );
    assert_eq!(baud_divisor(1).unwrap_err().category(), Category::Selection);
    assert_eq!(baud_divisor(1_960_700).unwrap(), (24, 2_000_000));
    assert_eq!(baud_divisor(9_796_918).unwrap(), (5, 9_600_000));
    assert!(baud_divisor(9_796_919).is_err());
}

#[test]
fn status_bytes_are_stripped_from_every_packet() {
    let mut transfer = vec![0x01, 0x60];
    transfer.extend([b'a'; 6]);
    transfer.extend([0x01, 0x62, b'b', b'c']);
    let (payload, counters) = strip_ftdi_status(&transfer, 8).unwrap();
    assert_eq!(payload, b"aaaaaabc");
    assert_eq!(counters.overflow, 1);
    assert_eq!(counters.errors, 0);
    assert!(counters.transmitter_empty);

    let (payload, counters) = strip_ftdi_status(&[0x01, 0x1e], 64).unwrap();
    assert!(payload.is_empty());
    assert_eq!((counters.errors, counters.overflow), (1, 1));
    assert!(!counters.transmitter_empty);

    let (payload, counters) = strip_ftdi_status(&[], 64).unwrap();
    assert!(payload.is_empty());
    assert!(!counters.transmitter_empty);
    assert_eq!(
        strip_ftdi_status(&[1], 64).unwrap_err().message(),
        "FTDI USB packet ended inside its status header"
    );
    assert_eq!(
        strip_ftdi_status(&[1, 2], 1).unwrap_err().message(),
        "FTDI endpoint max-packet size is smaller than its status header"
    );
}

#[test]
fn standing_line_errors_are_counted_once() {
    let transfer = [0x01, 0x04, 0x01, 0x04, 0x01, 0x00, 0x01, 0x08];
    let (_, counters, line) = strip_ftdi_status_from(&transfer, 2, Some(0)).unwrap();
    assert_eq!(counters.errors, 2);
    assert_eq!(line, Some(0x08));
    let (_, counters, _) = strip_ftdi_status_from(&transfer[..2], 2, None).unwrap();
    assert_eq!(counters.errors, 0);
    let (_, _, line) = strip_ftdi_status_from(&[], 2, Some(7)).unwrap();
    assert_eq!(line, Some(7));
}

#[test]
fn receivers_deliver_every_byte_in_order() {
    let mut receiver = UsbReceiver::new(512);
    assert!(receiver.take_pending(4).is_none());
    let first = receiver.complete(2, &[1, 0x60, b'h', b'e', b'l', b'l', b'o'], None);
    assert_eq!(first.bytes, b"he");
    assert_eq!(first.outcome.completed, 2);
    let second = receiver.take_pending(2).unwrap();
    assert_eq!(second.bytes, b"ll");
    let third = receiver.take_pending(8).unwrap();
    assert_eq!(third.bytes, b"o");
    assert_eq!(third.outcome.completed, 1);
    assert!(receiver.take_pending(8).is_none());

    let empty = receiver.complete(8, &[1, 0x62], None);
    assert!(empty.bytes.is_empty());
    let failure = empty.outcome.failure.unwrap();
    assert_eq!(failure.kind, TransferFailureKind::WouldBlock);
    assert_eq!(failure.message, "FTDI USB status-only packet");
    assert_eq!(receiver.totals().rx_overflow, 1);

    let broken = receiver.complete(8, &[1, 0x60, b'x'], Some("stall".to_owned()));
    assert_eq!(broken.bytes, b"x");
    assert_eq!(broken.outcome.completed, 1);
    let failure = broken.outcome.failure.unwrap();
    assert_eq!(failure.kind, TransferFailureKind::Access);
    assert_eq!(failure.message, "FTDI USB read failed: stall");

    let short = receiver.complete(8, &[1], None);
    assert_eq!(
        short.outcome.failure.unwrap().kind,
        TransferFailureKind::Protocol
    );
    assert_eq!(
        read_timed_out().failure.unwrap().message,
        "FTDI USB read timed out"
    );
}

#[test]
fn usb_writes_blame_the_device() {
    assert_eq!(write_outcome(Ok(4)).completed, 4);
    let outcome = write_outcome(Err(IoError::new(IoErrorKind::BrokenPipe, "x".to_owned())));
    assert_eq!(outcome.failure.unwrap().kind, TransferFailureKind::Access);
    let outcome = write_outcome(Err(IoError::new(IoErrorKind::TimedOut, "x".to_owned())));
    assert_eq!(outcome.failure.unwrap().kind, TransferFailureKind::TimedOut);
}

fn descriptor(serial: Option<&str>, product: &str, bus: &str, native: usize) -> UsbDescriptor {
    UsbDescriptor {
        vendor_id: 0x0403,
        product_id: 0x6014,
        device_version: 0x0900,
        serial: serial.map(str::to_owned),
        product: Some(product.to_owned()),
        bus_id: bus.to_owned(),
        native,
    }
}

#[test]
fn usb_discovery_is_ordered_and_exact() {
    let found = vec![
        descriptor(Some("B"), "C232HD-DDHSP-0", "2", 0),
        descriptor(Some("A"), "C232HD-DDHSP-0", "2", 1),
        descriptor(None, "C232HD-DDHSP-0", "3", 2),
        descriptor(Some("A"), "FT232H", "1", 3),
        descriptor(Some("A"), "C232HD-DDHSP-0", "1", 4),
    ];
    let devices = usb::list_devices(Ok(found)).unwrap();
    let order: Vec<usize> = devices.iter().map(|device| device.native).collect();
    assert_eq!(order, [4, 1, 0]);
    assert_eq!(
        usb::select_device(&devices, Some("B")).unwrap().native,
        0
    );
    assert_eq!(
        usb::select_device(&devices, Some("Z")).unwrap_err().message(),
        "no matching C232HD-DDHSP-0 USB device was found"
    );
    assert_eq!(
        usb::select_device(&devices, None).unwrap_err().message(),
        "multiple C232HD-DDHSP-0 devices match; specify --serial"
    );
    let listed = list_devices(Enumeration::Usb(Ok(vec![descriptor(
        Some("A"),
        "C232HD-DDHSP-0",
        "1-2",
        0,
    )])))
    .unwrap();
    assert_eq!(listed[0].backend, Backend::Usb);
    assert_eq!(listed[0].listing(), "A 0403:6014 1-2 C232HD-DDHSP-0");
    let error = list_devices(Enumeration::Usb(Err("denied".to_owned()))).unwrap_err();
    assert_eq!(error.message(), "cannot enumerate USB devices: denied");
}

fn endpoint(address: u8, bulk: bool, max_packet: usize) -> EndpointInfo {
    EndpointInfo {
        address,
        bulk,
        input: address & 0x80 != 0,
        max_packet,
    }
}

fn settings() -> Vec<AlternateSetting> {
    vec![
        AlternateSetting {
            interface: 1,
            alternate: 0,
            endpoints: vec![endpoint(0x83, true, 64), endpoint(0x04, true, 64)],
        },
        AlternateSetting {
            interface: 0,
            alternate: 1,
            endpoints: vec![endpoint(0x85, true, 64), endpoint(0x06, true, 64)],
        },
        AlternateSetting {
            interface: 0,
            alternate: 0,
            endpoints: vec![
                endpoint(0x87, false, 16),
                endpoint(0x81, true, 512),
                endpoint(0x02, true, 256),
            ],
        },
    ]
}

#[test]
fn endpoints_come_from_the_default_setting() {
    assert_eq!(
        discover_endpoints(&settings()).unwrap(),
        PortEndpoints {
            rx: 0x81,
            tx: 0x02,
            max_packet: 256
        }
    );
    let error = discover_endpoints(&settings()[..2].iter().map(|setting| AlternateSetting {
        interface: setting.interface,
        alternate: setting.alternate,
        endpoints: setting.endpoints.clone(),
    }).collect())
    .unwrap_err();
    assert_eq!(
        error.message(),
        "C232HD bulk endpoint descriptors are missing"
    );
}

#[test]
fn configuration_resets_before_it_sets_the_line() {
    let (requests, actual) = configure_ftdi(115_200);
    let sent: Vec<(u8, u16, u16)> = requests
        .iter()
        .map(|request| (request.request, request.value, request.index))
        .collect();
    assert_eq!(
        sent,
        [
            (0, 0, 1),
            (0, 1, 1),
            (0, 2, 1),
            (9, 16, 1),
            (3, 0xc068, 0x0201),
            (4, 8, 1),
            (2, 0, 1),
            (1, 0x0300, 1),
        ]
    );
    assert_eq!(actual.unwrap(), 115_246);
    let (requests, actual) = configure_ftdi(10_000_000);
    assert_eq!(requests.len(), 4);
    assert!(matches!(actual, Err(Error::Validation(_))));
}

#[test]
fn modem_status_reports_the_transmitter() {
    assert!(modem_status(Ok(vec![0, 0x60])).unwrap());
    assert!(!modem_status(Ok(vec![0x40, 0x20])).unwrap());
    assert_eq!(
        modem_status(Ok(vec![0])).unwrap_err().message(),
        "FTDI modem-status response is not two bytes"
    );
    assert_eq!(
        modem_status(Err("stall".to_owned())).unwrap_err().message(),
        "FTDI modem-status request failed: stall"
    );
    assert_eq!(interface_closed().message(), "FTDI USB interface is closed");
    match usb::drain_poll(false, true, "A1", Span::from_millis(5)) {
        DrainProgress::Overdue(error) => assert_eq!(
            error.message(),
            "C232HD USB serial A1 did not drain within 5 ms"
        ),
        _ => panic!("not overdue"),
    }
}

fn cable() -> UsbDeviceInfo {
    UsbDeviceInfo {
        serial: "A1".to_owned(),
        path: "1-2".to_owned(),
        native: 3,
    }
}

/// Drives an opening until it ends, with the given failure of one action.
fn run_opening(
    baud: u32,
    mut fails: impl FnMut(&Action) -> Option<Event>,
) -> (
    Result<glasgow_tool::uart::c232::opening::OpenedCable, Error>,
    Vec<Action>,
) {
    let mut machine = UsbOpening::new(cable(), baud);
    let mut actions = Vec::new();
    loop {
        let action = machine.action();
        if action == Action::Finish {
            break;
        }
        actions.push(action);
        let event = fails(&action).unwrap_or_else(|| match action {
            Action::Describe => Event::Described(settings()),
            _ => Event::Done,
        });
        machine.advance(event);
    }
    (machine.finish().unwrap(), actions)
}

#[test]
fn a_cable_opens_once_it_is_detached_and_configured() {
    let (opened, actions) = run_opening(115_200, |_| None);
    let opened = opened.unwrap();
    assert_eq!(opened.endpoints.rx, 0x81);
    assert_eq!(opened.actual_baud, 115_246);
    assert_eq!(opened.metadata().backend, "usb");
    assert_eq!(opened.metadata().path.as_deref(), Some("1-2"));
    let metadata = transport_metadata(&opened);
    assert_eq!(metadata.backend, EventBackend::Usb);
    assert_eq!(metadata.serial, "A1");
    assert_eq!(actions[0], Action::OpenDevice { position: 3 });
    assert_eq!(actions[1], Action::Describe);
    assert_eq!(actions[2], Action::Detach);
    assert_eq!(actions[3], Action::Claim);
    assert_eq!(actions.len(), 4 + 8 + 2);
}

#[test]
fn a_cable_without_a_driver_gets_it_back_first() {
    let mut detached = false;
    let (opened, actions) = run_opening(115_200, |action| {
        if *action == Action::Detach && !detached {
            detached = true;
            return Some(Event::NoDriver("no driver".to_owned()));
        }
        None
    });
    assert!(opened.is_ok());
    assert_eq!(
        actions[2..6],
        [
            Action::Detach,
            Action::Attach,
            Action::Detach,
            Action::Claim
        ]
    );
}

#[test]
fn failures_behind_the_detach_restore_the_driver() {
    let (result, actions) = run_opening(115_200, |action| match action {
        Action::Claim => Some(Event::Failed("busy".to_owned())),
        _ => None,
    });
    assert_eq!(
        result.unwrap_err().message(),
        "cannot claim C232HD USB interface: busy"
    );
    assert_eq!(actions.last(), Some(&Action::Attach));

    let (result, actions) = run_opening(10_000_000, |_| None);
    assert_eq!(result.unwrap_err().category(), Category::Validation);
    assert_eq!(actions.last(), Some(&Action::Attach));

    let (result, _) = run_opening(115_200, |action| match action {
        Action::Control(request) if request.request == 9 => {
            Some(Event::Failed("stall".to_owned()))
        }
        Action::Attach => Some(Event::Failed("ignored".to_owned())),
        _ => None,
    });
    assert_eq!(
        result.unwrap_err().message(),
        "FTDI control request 9 failed: stall"
    );

    let (result, actions) = run_opening(115_200, |action| match action {
        Action::Detach => Some(Event::Failed("denied".to_owned())),
        _ => None,
    });
    assert_eq!(
        result.unwrap_err().message(),
        "cannot detach the VCP driver for C232HD serial A1 at 1-2: denied"
    );
    assert_eq!(actions.last(), Some(&Action::Detach));

    let (result, _) = run_opening(115_200, |action| match action {
        Action::OpenDevice { .. } => Some(Event::Failed("gone".to_owned())),
        _ => None,
    });
    assert_eq!(
        result.unwrap_err().message(),
        "cannot open C232HD USB serial A1 at 1-2: gone"
    );
}

fn unknown() -> UsbMetadata {
    UsbMetadata::default()
}

fn port(name: &str, serial: Option<&str>, product: &str) -> PortRecord {
    PortRecord {
        name: name.to_owned(),
        usb: Some(UsbPortInfo {
            vid: 0x0403,
            pid: 0x6014,
            serial_number: serial.map(str::to_owned),
            product: Some(product.to_owned()),
        }),
        sysfs: unknown(),
        stable_path: None,
    }
}

#[test]
fn serial_ports_are_listed_once_and_in_order() {
    let mut tree = port("/dev/ttyUSB9", None, "C232HD-DDHSP-0");
    tree.sysfs.serial = Some("A0".to_owned());
    tree.stable_path = Some("/dev/serial/by-id/x".to_owned());
    let mut bare = port("/dev/ttyUSB8", None, "");
    bare.usb = None;
    bare.sysfs = UsbMetadata {
        vid: Some(0x0403),
        pid: Some(0x6014),
        serial: Some("A9".to_owned()),
        product: Some("C232HD-DDHSP-0".to_owned()),
    };
    let ports = vec![
        port("/dev/ttyUSB1", Some("B"), "C232HD-DDHSP-0"),
        bare,
        port("/dev/ttyUSB1", Some("A"), "C232HD-DDHSP-0"),
        port("/dev/ttyUSB0", Some("A"), "C232HD-DDHSP-0"),
        port("/dev/ttyUSB1", Some("A"), "C232HD-DDHSP-0"),
        port("/dev/ttyUSB2", Some("A"), "other"),
        port("/dev/ttyUSB3", None, "C232HD-DDHSP-0"),
        tree,
    ];
    let devices = vcp::list_devices(Ok(ports)).unwrap();
    let keys: Vec<(&str, &str)> = devices
        .iter()
        .map(|device| (device.serial.as_str(), device.port.as_str()))
        .collect();
    assert_eq!(
        keys,
        [
            ("A", "/dev/ttyUSB0"),
            ("A", "/dev/ttyUSB1"),
            ("A0", "/dev/ttyUSB9"),
            ("A9", "/dev/ttyUSB8"),
            ("B", "/dev/ttyUSB1"),
        ]
    );
    assert_eq!(devices[0].vid, "0403");
    assert_eq!(devices[0].pid, "6014");
    let error = vcp::list_devices(Err("no udev".to_owned())).unwrap_err();
    assert_eq!(error.message(), "cannot enumerate serial ports: no udev");
    let mut only = port("/dev/ttyUSB0", Some("A"), "C232HD-DDHSP-0");
    only.stable_path = Some("/dev/serial/by-id/a".to_owned());
    let listed = list_devices(Enumeration::Serial(Ok(vec![only]))).unwrap();
    assert_eq!(
        listed[0].listing(),
        "A 0403:6014 /dev/serial/by-id/a C232HD-DDHSP-0"
    );
    assert_eq!(listed[0].path, "/dev/ttyUSB0");
}

#[test]
fn device_tree_attributes_are_trimmed_hexadecimal() {
    assert_eq!(
        read_trimmed(&Some(" 0403\n".to_owned())).as_deref(),
        Some("0403")
    );
    assert_eq!(
        read_trimmed(&Some("\u{2003}x y\u{a0}".to_owned())).as_deref(),
        Some("x y")
    );
    assert!(read_trimmed(&Some(" \t\n".to_owned())).is_none());
    assert!(read_trimmed(&None).is_none());
    let attributes = |vendor: &str, product: &str| Attributes {
        id_vendor: Some(vendor.to_owned()),
        id_product: Some(product.to_owned()),
        serial: Some("FT1\n".to_owned()),
        product: Some("\n".to_owned()),
    };
    let found = linux_usb_metadata(&attributes("0403\n", "zz\n")).unwrap();
    assert_eq!(found.vid, Some(0x0403));
    assert_eq!(found.pid, None);
    assert_eq!(found.serial.as_deref(), Some("FT1"));
    assert_eq!(found.product, None);
    assert!(linux_usb_metadata(&attributes("", "10000")).is_none());
}

#[test]
fn stable_paths_are_the_least_matching_link() {
    let link = |name: &str, same: bool| StableLink {
        name: name.as_bytes().to_vec(),
        path: format!("/dev/serial/by-id/{name}"),
        same,
    };
    let links = vec![link("c", true), link("a", false), link("b", true)];
    assert_eq!(
        stable_path(&links).as_deref(),
        Some("/dev/serial/by-id/b")
    );
    assert_eq!(stable_path(&vec![link("a", false)]), None);
}

fn vcp_device(serial: &str, port: &str) -> VcpDevice {
    VcpDevice {
        serial: serial.to_owned(),
        vid: "0403".to_owned(),
        pid: "6014".to_owned(),
        product: "C232HD-DDHSP-0".to_owned(),
        port: port.to_owned(),
        stable_path: None,
    }
}

#[test]
fn serial_devices_are_selected_by_serial_and_path() {
    let devices = [vcp_device("A", "/dev/ttyUSB0"), vcp_device("B", "/dev/ttyUSB1")];
    let apart = PathComparison {
        equal: false,
        canonical: None,
    };
    let linked = PathComparison {
        equal: false,
        canonical: Some(true),
    };
    assert!(same_path(linked));
    assert!(!same_path(apart));
    let second = vec![
        DevicePaths {
            port: apart,
            stable: None,
        },
        DevicePaths {
            port: apart,
            stable: Some(linked),
        },
    ];
    assert_eq!(
        select_device(&devices, Some("A"), None).unwrap().port,
        "/dev/ttyUSB0"
    );
    assert_eq!(
        select_device(&devices, None, Some(&second)).unwrap().serial,
        "B"
    );
    assert_eq!(
        select_device(&devices, Some("A"), Some(&second))
            .unwrap_err()
            .message(),
        "--serial and --port do not identify the same C232HD-DDHSP-0"
    );
    assert_eq!(
        select_device(&devices, Some("C"), None).unwrap_err().message(),
        "no matching C232HD-DDHSP-0 was found"
    );
    assert_eq!(
        select_device(&devices, None, None).unwrap_err().message(),
        "multiple C232HD-DDHSP-0 devices match; specify --serial"
    );
}

#[test]
fn serial_ports_open_by_the_best_known_path() {
    let mut device = vcp_device("A", "/dev/ttyUSB0");
    let opening = VcpOpening::open(&device, 115_200, None).unwrap();
    assert_eq!(opening.path, "/dev/ttyUSB0");
    device.stable_path = Some("/dev/serial/by-id/a".to_owned());
    let opening = VcpOpening::open(&device, 115_200, None).unwrap();
    assert_eq!(opening.path, "/dev/serial/by-id/a");
    let opening = VcpOpening::open(&device, 115_200, Some("/dev/mine")).unwrap();
    assert_eq!(opening.path, "/dev/mine");
    assert_eq!(opening.metadata().actual_baud, 115_246);
    assert_eq!(opening.metadata().backend, "vcp");
    assert!(VcpOpening::open(&device, 10_000_000, None).is_err());
    let mut steps = vec![OpenStep::Open];
    while let Some(next) = steps[steps.len() - 1].next() {
        steps.push(next);
    }
    let texts: Vec<String> = steps
        .iter()
        .map(|step| opening.failed(*step, "why").message().to_owned())
        .collect();
    assert_eq!(
        texts,
        [
            "cannot open C232HD serial A at /dev/mine: why",
            "cannot deassert DTR for C232HD serial A at /dev/mine: why",
            "cannot deassert RTS for C232HD serial A at /dev/mine: why",
            "cannot clear stale input for C232HD serial A at /dev/mine: why",
            "cannot clone C232HD serial A at /dev/mine: why",
        ]
    );
    assert_eq!(
        vcp::queue_failed(None, "why").message(),
        "cannot inspect C232HD output queue for serial <no serial>: why"
    );
    assert!(matches!(
        vcp::drain_poll(0, true, Some("A"), Span::zero()),
        DrainProgress::Done
    ));
    match vcp::drain_poll(3, true, Some("A"), Span::from_secs(5)) {
        DrainProgress::Overdue(error) => {
            assert_eq!(error.message(), "C232HD serial A did not drain within 5000 ms");
        }
        _ => panic!("not overdue"),
    }
}

#[test]
fn a_missing_driver_is_told_from_a_failed_detach() {
    let refused = |not_found, linux, number| {
        match detach_refused(not_found, linux, number, "busy".to_owned()) {
            Event::NoDriver(reason) => {
                assert_eq!(reason, "busy");
                true
            }
            Event::Failed(reason) => {
                assert_eq!(reason, "busy");
                false
            }
            other => panic!("unexpected event {other:?}"),
        }
    };
    assert!(refused(true, false, None));
    assert!(refused(true, true, Some(16)));
    assert!(refused(false, true, Some(61)));
    assert!(!refused(false, false, Some(61)));
    assert!(!refused(false, true, Some(16)));
    assert!(!refused(false, true, None));
}

#[test]
fn a_closed_cable_is_offered_until_it_is_taken() {
    assert_eq!(ATTACH_ATTEMPTS, 10);
    assert!(offers_again(0, false));
    assert!(offers_again(9, false));
    assert!(!offers_again(10, false));
    assert!(!offers_again(1, true));
}

#[test]
fn full_packets_may_be_stripped_in_two_transfers() {
    let first = [1, 0x02, b'a', b'b', 1, 0x12, b'c', b'd'];
    let second = [1, 0x12, b'e', b'f', 1, 0x06];
    let whole: Vec<u8> = first.iter().chain(&second).copied().collect();
    let (payload, counters, line) = strip_ftdi_status_from(&whole, 4, Some(0)).unwrap();
    let (begin, counted, carried) = strip_ftdi_status_from(&first, 4, Some(0)).unwrap();
    let (end, more, last) = strip_ftdi_status_from(&second, 4, carried).unwrap();
    assert_eq!(payload, b"abcdef");
    assert_eq!([begin, end].concat(), payload);
    assert_eq!(counted.errors + more.errors, counters.errors);
    assert_eq!(counted.overflow + more.overflow, counters.overflow);
    assert_eq!((counters.errors, counters.overflow), (2, 1));
    assert_eq!((last, line), (Some(6), Some(6)));
}

#[test]
fn no_neighbouring_divisor_is_nearer() {
    for rate in [9_600_u32, 115_200, 921_600, 5_999_999] {
        let eighths = u64::from(ftdi_high_speed_baud(rate).unwrap().divisor_eighths);
        let miss = |divisor: u64| 96_000_000_u64.abs_diff(divisor * u64::from(rate));
        assert!(miss(eighths) <= miss(eighths - 1) && miss(eighths) <= miss(eighths + 1));
    }
}
