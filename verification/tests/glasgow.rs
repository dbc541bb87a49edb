use glasgow_tool::cli::AppError;
use glasgow_tool::glasgow::device::{
    decode_revision, list_devices, list_recovery_candidates, select_device, GlasgowDeviceInfo,
};
use glasgow_tool::glasgow::firmware::plan_upload;
use glasgow_tool::glasgow::management::{
    check_resource, decode_hex, expect_ack, find_resource, finish_fpga_load, fpga_status,
    load_request, pulls_request, read_register, read_request, set_fixed_profile, status_request,
    validate_resource, validate_resource_data, voltage_request, write_register, Bitstream, Exchange, Firmware,
    FirmwareSegment, LoadProgress, Management, Pipe, PipeEndpoint, Profile, Register, Registers,
    ResourceManifest,
};
use glasgow_tool::glasgow::provision::{Action, Event, OpenedUart, Provision, Role};
use glasgow_tool::glasgow::resource::is_pinned;
use glasgow_tool::glasgow::uart::{drain_poll, read_outcome, ReceiveCounters};
use glasgow_tool::span::Span;
use glasgow_tool::transfer::DrainProgress;
use glasgow_tool::uart::glasgow as library;
use glasgow_tool::uart::glasgow::resources::{for_revision, is_supported, GlasgowResource};
use glasgow_tool::uart::{TransferFailureKind, TransferOutcome};
use glasgow_tool::usb::UsbDescriptor;

const BITSTREAM: &[u8] = b"abc";
const DIGEST: &str = "ba7816bf8f01cfea414140de5dae2223b00361a396177a9cb410ff61f20015ad";
const ID: [u8; 8] = [1, 2, 3, 4, 5, 6, 7, 0xff];

fn register(address: u8, storage_bytes: u8) -> Register {
    Register {
        address,
        width_bits: 32,
        storage_bytes,
        endian: "little".to_owned(),
        access: "rw".to_owned(),
    }
}

fn manifest() -> ResourceManifest {
    ResourceManifest {
        schema_version: 1,
        upstream_commit: "b2a15e9c".to_owned(),
        revision: "C3".to_owned(),
        profile: Profile {
            port: "A".to_owned(),
            voltage: 3.3_f64.to_bits(),
            rx: "A0".to_owned(),
            tx: "A1".to_owned(),
            data_bits: 8,
            parity: "none".to_owned(),
            stop_bits: 1,
            flow_control: "none".to_owned(),
            inverted: false,
        },
        bitstream: Bitstream {
            file: "C3.bit".to_owned(),
            id: "01020304050607fF".to_owned(),
            sha256: DIGEST.to_owned(),
        },
        registers: Registers {
            baud_divisor: register(1, 3),
            rx_errors: register(2, 2),
            rx_overflow: register(3, 2),
            tx_state: register(4, 4),
        },
        pipe: Pipe {
            rx: PipeEndpoint {
                interface: 3,
                alternate_setting: 1,
                endpoint: 0x88,
                max_packet: 512,
            },
            tx: PipeEndpoint {
                interface: 2,
                alternate_setting: 1,
                endpoint: 0x06,
                max_packet: 512,
            },
        },
        firmware: Firmware {
            api_level: 9,
            source_sha256: String::new(),
            segments: vec![
                FirmwareSegment {
                    address: 0x0000,
                    data_hex: "0102".to_owned(),
                },
                FirmwareSegment {
                    address: 0xf800,
                    data_hex: "aa".repeat(4097),
                },
            ],
        },
    }
}

fn verdict(change: impl FnOnce(&mut ResourceManifest)) -> String {
    let mut manifest = manifest();
    change(&mut manifest);
    match validate_resource_data("C3", Ok(manifest), BITSTREAM) {
        Ok(_) => "valid".to_owned(),
        Err(AppError::Protocol(message)) => message,
        Err(other) => panic!("unexpected {other:?}"),
    }
}

#[test]
fn resources_are_validated_field_by_field() {
    let (_, id) = validate_resource_data("C3", Ok(manifest()), BITSTREAM).unwrap();
    assert_eq!(id, ID);
    let header = "embedded Glasgow resource schema, revision, firmware, or profile mismatch";
    assert_eq!(verdict(|m| m.schema_version = 2), header);
    assert_eq!(verdict(|m| m.revision = "C2".to_owned()), header);
    assert_eq!(verdict(|m| m.firmware.api_level = 8), header);
    assert_eq!(verdict(|m| m.profile.voltage = 5.0_f64.to_bits()), header);
    assert_eq!(verdict(|m| m.profile.inverted = true), header);
    assert_eq!(verdict(|m| m.profile.parity = "even".to_owned()), header);
    let digest = "embedded Glasgow bitstream digest mismatch";
    assert_eq!(verdict(|m| m.bitstream.sha256 = DIGEST.to_uppercase()), digest);
    assert_eq!(verdict(|m| m.bitstream.file = "C2.bit".to_owned()), digest);
    assert_eq!(
        verdict(|m| m.bitstream.id = "0".to_owned()),
        "resource contains odd-length hex"
    );
    assert_eq!(
        verdict(|m| m.bitstream.id = "zz".to_owned()),
        "resource contains invalid hex"
    );
    assert_eq!(
        verdict(|m| m.bitstream.id = "00".to_owned()),
        "Glasgow bitstream ID is not eight bytes"
    );
    let registers = "embedded Glasgow register metadata mismatch";
    assert_eq!(verdict(|m| m.registers.rx_errors.address = 0x80), registers);
    assert_eq!(verdict(|m| m.registers.tx_state.storage_bytes = 0), registers);
    assert_eq!(verdict(|m| m.registers.tx_state.storage_bytes = 5), registers);
    assert_eq!(verdict(|m| m.registers.baud_divisor.width_bits = 33), registers);
    assert_eq!(
        verdict(|m| m.registers.rx_overflow.access = "wo".to_owned()),
        registers
    );
    let pipe = "embedded Glasgow pipe metadata mismatch";
    assert_eq!(verdict(|m| m.pipe.rx.endpoint = 0x08), pipe);
    assert_eq!(verdict(|m| m.pipe.tx.endpoint = 0x86), pipe);
    assert_eq!(verdict(|m| m.pipe.tx.max_packet = 64), pipe);
    assert_eq!(
        validate_resource_data("C3", Err("EOF".to_owned()), BITSTREAM)
            .unwrap_err()
            .message(),
        "invalid embedded manifest: EOF"
    );
    assert_eq!(
        validate_resource_data("C3", Ok(manifest()), b"abd")
            .unwrap_err()
            .message(),
        digest
    );
    assert!(check_resource("C3", Ok(manifest()), &decode_hex(DIGEST).unwrap()).is_ok());
    assert!(check_resource("C3", Ok(manifest()), &[0; 32]).is_err());
}

#[test]
fn hexadecimal_pairs_decode_both_cases() {
    assert_eq!(decode_hex("00fFa5").unwrap(), [0x00, 0xff, 0xa5]);
    assert_eq!(decode_hex("").unwrap(), Vec::<u8>::new());
    assert_eq!(decode_hex("+f").unwrap(), [0x0f]);
    assert!(decode_hex("-f").is_err());
    assert!(decode_hex("é").is_err());
    assert!(decode_hex("abc").is_err());
}

#[test]
fn resources_are_found_by_exact_revision() {
    let resources = [
        GlasgowResource {
            revision: "C2",
            bitstream: b"x",
            manifest: b"{}",
        },
        GlasgowResource {
            revision: "C3",
            bitstream: BITSTREAM,
            manifest: b"{}",
        },
    ];
    assert_eq!(for_revision(&resources, "C3").unwrap().bitstream, BITSTREAM);
    assert!(for_revision(&resources, "C1").is_none());
    assert_eq!(
        find_resource(&resources, "B1").unwrap_err().message(),
        "Glasgow revision B1 is unsupported; expected C0, C1, C2, or C3"
    );
}

#[test]
fn only_supported_steppings_have_resources() {
    let strange = GlasgowResource {
        revision: "C4",
        bitstream: BITSTREAM,
        manifest: b"{}",
    };
    assert!(for_revision(&[strange], "C4").is_none());
    let expected = "Glasgow revision C4 is unsupported; expected C0, C1, C2, or C3";
    assert_eq!(find_resource(&[strange], "C4").unwrap_err().message(), expected);
    assert_eq!(
        validate_resource("C4", &strange, Ok(manifest())).unwrap_err().message(),
        expected
    );
    assert!(["C0", "C1", "C2", "C3"].into_iter().all(is_supported));
    assert!(!is_supported("C") && !is_supported("c0") && !is_supported("C00"));

    let other = GlasgowResource {
        revision: "C2",
        ..resource()
    };
    assert_eq!(
        Provision::begin(device(0x0933), &other, Ok(manifest()), 115_200)
            .unwrap_err()
            .message(),
        "Glasgow revision C3 is unsupported; expected C0, C1, C2, or C3"
    );
}

#[test]
fn packaged_resources_are_pinned() {
    let mut packaged = manifest();
    assert!(!is_pinned(&packaged));
    packaged.upstream_commit = "b2a15e9c797b90167d96257a557218ddb7984e71".to_owned();
    assert!(is_pinned(&packaged));
}

#[test]
fn management_serials_run_from_one_to_255() {
    let mut management = Management::new();
    for turn in 0..600_u32 {
        let command = management.command(&[0x22]).unwrap();
        assert_eq!(u32::from(command.serial), turn % 255 + 1);
        assert_eq!(command.packet, [command.serial, 0x22]);
    }
    let before = management.command(&[]).unwrap().serial;
    assert!(management.command(&[0; 63]).is_ok());
    assert_eq!(
        management.command(&[0; 64]).unwrap_err().message(),
        "Glasgow management command exceeds 63-byte payload"
    );
    assert_eq!(management.command(&[]).unwrap().serial, before + 2);
}

#[test]
fn replies_carry_the_serial_of_their_command() {
    let mut management = Management::new();
    let command = management.command(&[0x22]).unwrap();
    assert_eq!(
        command.complete(Exchange::Reply(vec![1, 7, 8])).unwrap(),
        [7, 8]
    );
    let mismatch = "Glasgow management response serial mismatch";
    assert_eq!(
        command
            .complete(Exchange::Reply(vec![2, 7]))
            .unwrap_err()
            .message(),
        mismatch
    );
    assert_eq!(
        command
            .complete(Exchange::Reply(Vec::new()))
            .unwrap_err()
            .message(),
        mismatch
    );
    assert_eq!(
        command
            .complete(Exchange::WriteFailed("x".to_owned()))
            .unwrap_err()
            .message(),
        "Glasgow management write failed: x"
    );
    assert_eq!(
        command
            .complete(Exchange::ReadFailed("y".to_owned()))
            .unwrap_err()
            .message(),
        "Glasgow management response failed: y"
    );
}

#[test]
fn management_requests_have_their_wire_form() {
    assert_eq!(status_request(), [0x22]);
    assert_eq!(
        load_request(0x0102_0304, ID).unwrap(),
        [0x20, 4, 3, 2, 1, 1, 2, 3, 4, 5, 6, 7, 0xff]
    );
    assert_eq!(
        load_request(0x1_0000_0000, ID).unwrap_err().message(),
        "Glasgow bitstream is too large"
    );
    assert_eq!(
        write_register(&register(5, 3), 0x0001_02a1),
        [0x28, 5, 1, 2, 0xa1]
    );
    assert_eq!(write_register(&register(5, 4), 0x8001_02a1)[2..], [0x80, 1, 2, 0xa1]);
    assert_eq!(read_request(&register(5, 2)), [0x29, 5, 2]);
    assert_eq!(
        voltage_request(true),
        [0x30, 1, 0xe4, 0x0c, 0xe4, 0x0c, 0xe4, 0x0c, 0xe4, 0x0c]
    );
    assert_eq!(voltage_request(false), [0x30, 1, 0, 0, 0, 0, 0, 0, 0, 0]);
    assert_eq!(pulls_request(true), [0x3a, 1, 0, 1, 0, 0, 0, 0, 0, 0]);
    let (first, second) = set_fixed_profile(false);
    assert_eq!(first.payload, voltage_request(false));
    assert_eq!(second.payload, pulls_request(false));
    assert_eq!(second.operation, "port-A pull configuration");
}

#[test]
fn management_replies_are_checked() {
    assert!(expect_ack(&[0], "register write").is_ok());
    assert_eq!(
        expect_ack(&[1, 0xab], "register write").unwrap_err().message(),
        "Glasgow register write returned [01, ab]"
    );
    assert_eq!(
        expect_ack(&[], "register write").unwrap_err().message(),
        "Glasgow register write returned []"
    );
    let mut status = vec![0; 13];
    assert_eq!(fpga_status(&status).unwrap(), None);
    status[5..].copy_from_slice(&ID);
    assert_eq!(fpga_status(&status).unwrap(), Some(ID));
    assert_eq!(
        fpga_status(&status[1..]).unwrap_err().message(),
        "invalid Glasgow FPGA status response"
    );
    assert_eq!(read_register(&register(1, 2), &[0, 0x34, 0x12]).unwrap(), 0x1234);
    assert_eq!(
        read_register(&register(1, 4), &[0, 1, 2, 3, 0x80]).unwrap(),
        0x8003_0201
    );
    assert_eq!(
        read_register(&register(1, 2), &[0, 1]).unwrap_err().message(),
        "invalid Glasgow register response"
    );
    assert!(matches!(finish_fpga_load(&[0], true), LoadProgress::Done));
    assert!(matches!(finish_fpga_load(&[1], false), LoadProgress::Wait));
    match finish_fpga_load(&[1], true) {
        LoadProgress::Failed(error) => assert_eq!(
            error.message(),
            "Glasgow FPGA configuration failed with [01]"
        ),
        other => panic!("unexpected {other:?}"),
    }
}

#[test]
fn revisions_decode_to_a_letter_and_a_digit() {
    assert_eq!(decode_revision(0x33), "C3");
    assert_eq!(decode_revision(0x10), "A0");
    assert_eq!(decode_revision(0xf9), "O9");
    assert_eq!(decode_revision(0x3a), "unknown-3a");
    assert_eq!(decode_revision(0x05), "unknown-05");
}

fn descriptor(serial: Option<&str>, version: u16, bus: &str, native: usize) -> UsbDescriptor {
    UsbDescriptor {
        vendor_id: 0x20b7,
        product_id: 0x9db1,
        device_version: version,
        serial: serial.map(str::to_owned),
        product: None,
        bus_id: bus.to_owned(),
        native,
    }
}

fn recovery(bus: &str, native: usize) -> UsbDescriptor {
    UsbDescriptor {
        vendor_id: 0x04b4,
        product_id: 0x8613,
        ..descriptor(None, 0, bus, native)
    }
}

fn found() -> Vec<UsbDescriptor> {
    vec![
        recovery("9", 0),
        descriptor(Some("B"), 0x0933, "1", 1),
        descriptor(Some("A"), 0x0832, "2", 2),
        descriptor(None, 0x0931, "3", 3),
        recovery("4", 4),
    ]
}

#[test]
fn discovery_is_descriptor_only_and_deterministic() {
    let devices = list_devices(Ok(found())).unwrap();
    let order: Vec<usize> = devices.iter().map(|device| device.native.position).collect();
    assert_eq!(order, [3, 2, 1]);
    assert_eq!(devices[1].vid, "20b7");
    assert_eq!(devices[1].pid, "9db1");
    assert_eq!(devices[1].revision, "C2");
    assert_eq!(devices[1].api_level, 8);
    assert!(!devices[1].api_compatible);
    let mut shuffled = found();
    shuffled.reverse();
    let again = list_devices(Ok(shuffled)).unwrap();
    let order: Vec<usize> = again.iter().map(|device| device.native.position).collect();
    assert_eq!(order, [3, 2, 1]);
    assert_eq!(select_device(&devices, Some("A")).unwrap().path, "2");
    assert_eq!(
        select_device(&devices, Some("Q")).unwrap_err().message(),
        "no matching Glasgow was found"
    );
    assert_eq!(
        select_device(&devices, None).unwrap_err().message(),
        "multiple Glasgow devices match; specify --serial"
    );
    assert_eq!(list_recovery_candidates(Ok(found())).unwrap(), [0, 4]);
    assert_eq!(
        list_devices(Err("denied".to_owned())).unwrap_err().message(),
        "cannot enumerate USB devices: denied"
    );
}

#[test]
fn library_discovery_lists_and_selects() {
    let devices = library::list_devices(Ok(found())).unwrap();
    assert_eq!(devices[2].vendor_id, 0x20b7);
    assert_eq!(devices[0].listing(), "<no serial> 3 revC1 API 9 (compatible)");
    assert_eq!(
        devices[1].listing(),
        "A 2 revC2 API 8 (firmware update required)"
    );
    let options = library::OpenOptions {
        serial: Some("B".to_owned()),
        ..library::OpenOptions::default()
    };
    assert_eq!(library::open(&devices, &options).unwrap().native, 1);
    assert!(library::open(&devices, &library::OpenOptions::default()).is_err());
    let candidates = library::list_recovery_candidates(Ok(found())).unwrap();
    let paths: Vec<&str> = candidates
        .iter()
        .map(|candidate| candidate.path.as_str())
        .collect();
    assert_eq!(paths, ["4", "9"]);
}

#[test]
fn firmware_is_uploaded_with_the_cpu_in_reset() {
    let plan = plan_upload(&manifest().firmware.segments);
    assert!(plan.failure.is_none());
    let writes: Vec<(u16, usize)> = plan
        .writes
        .iter()
        .map(|write| (write.address, write.data.len()))
        .collect();
    assert_eq!(
        writes,
        [(0xe600, 1), (0x0000, 2), (0xf800, 4096), (0x0800, 1), (0xe600, 1)]
    );
    assert_eq!(plan.writes[0].data, [1]);
    assert_eq!(plan.writes[4].data, [0]);

    let bad = vec![
        FirmwareSegment {
            address: 0,
            data_hex: "00".to_owned(),
        },
        FirmwareSegment {
            address: 1,
            data_hex: "0".to_owned(),
        },
        FirmwareSegment {
            address: 2,
            data_hex: "00".to_owned(),
        },
    ];
    let plan = plan_upload(&bad);
    assert_eq!(plan.writes.len(), 2);
    assert_eq!(
        plan.failure.unwrap().message(),
        "resource contains odd-length hex"
    );
    let large = vec![FirmwareSegment {
        address: 0,
        data_hex: "00".repeat(0x1_0001),
    }];
    let plan = plan_upload(&large);
    assert_eq!(plan.writes.len(), 17);
    assert_eq!(
        plan.failure.unwrap().message(),
        "FX2 firmware segment is too large"
    );
}

fn resource() -> GlasgowResource {
    GlasgowResource {
        revision: "C3",
        bitstream: BITSTREAM,
        manifest: b"{}",
    }
}

fn device(version: u16) -> GlasgowDeviceInfo {
    list_devices(Ok(vec![descriptor(Some("S"), version, "1-1", 6)]))
        .unwrap()
        .remove(0)
}

/// A device that answers management commands.
struct Bench {
    id: [u8; 8],
    waits: usize,
    divisor: Vec<u8>,
    supply: bool,
    sizes: usize,
}

impl Bench {
    fn reply(&mut self, packet: &[u8]) -> Vec<u8> {
        let mut reply = vec![packet[0]];
        match packet[1] {
            0x22 => {
                reply.extend([0; 5]);
                reply.extend(self.id);
            }
            0x20 => {
                if self.waits > 0 {
                    self.waits -= 1;
                    reply.push(1);
                } else {
                    self.id.copy_from_slice(&packet[6..]);
                    reply.push(0);
                }
            }
            0x28 => {
                self.divisor = packet[3..].to_vec();
                reply.push(0);
            }
            0x30 => {
                self.supply = packet[3] != 0;
                reply.push(0);
            }
            0x3a => reply.push(0),
            0x29 => reply.extend([0, packet[2], 1]),
            other => panic!("unexpected request {other:#x}"),
        }
        reply
    }
}

fn provision(
    machine: &mut Provision,
    bench: &mut Bench,
    mut fails: impl FnMut(&Action, u64) -> Option<Event>,
) -> Vec<Action> {
    let mut actions = Vec::new();
    let mut now: u64 = 0;
    loop {
        let action = machine.action();
        if action == Action::Finish {
            return actions;
        }
        actions.push(action);
        assert!(actions.len() < 10_000);
        let event = fails(&action, now).unwrap_or_else(|| match action {
            Action::Exchange => {
                let packet = machine.packet().to_vec();
                Event::Exchanged(Exchange::Reply(bench.reply(&packet)))
            }
            Action::Enumerate => {
                Event::Enumerated(Ok(vec![descriptor(Some("S"), 0x0933, "1-1", 8)]))
            }
            Action::ReportPacketSizes => Event::PacketSizes {
                rx: bench.sizes,
                tx: 512,
            },
            Action::Pause { millis } => {
                now += millis;
                Event::Done
            }
            Action::WriteRam { .. } => {
                assert!(machine.ram_write().is_some());
                Event::Done
            }
            _ => Event::Done,
        });
        machine.advance(Span::from_millis(now), event);
    }
}

fn bench() -> Bench {
    Bench {
        id: [0; 8],
        waits: 2,
        divisor: Vec::new(),
        supply: false,
        sizes: 512,
    }
}

fn outcome(machine: Provision) -> Result<OpenedUart, AppError> {
    machine.finish().unwrap()
}

#[test]
fn provisioning_configures_and_opens_the_uart() {
    let mut machine = Provision::begin(device(0x0933), &resource(), Ok(manifest()), 115_200).unwrap();
    let mut bench = bench();
    let actions = provision(&mut machine, &mut bench, |_, _| None);
    assert!(actions.contains(&Action::WriteBitstream));
    assert_eq!(machine.bitstream(), BITSTREAM);
    let opened = outcome(machine).unwrap();
    assert_eq!(bench.id, ID);
    assert_eq!(bench.divisor, [0, 1, 0xa1]);
    assert!(bench.supply);
    assert_eq!(opened.metadata.serial, "S");
    assert_eq!(opened.metadata.actual_baud, 115_107);
    assert_eq!(opened.rx_errors_baseline, 0x0102);
    assert_eq!(opened.registers.tx_state.address, 4);
}

#[test]
fn a_configured_fpga_is_left_alone() {
    let mut machine = Provision::begin(device(0x0933), &resource(), Ok(manifest()), 115_200).unwrap();
    let mut bench = Bench { id: ID, ..bench() };
    let actions = provision(&mut machine, &mut bench, |_, _| None);
    assert!(!actions.contains(&Action::WriteBitstream));
    assert!(!actions.contains(&Action::Claim {
        role: Role::Configuration,
        interface: 1
    }));
    assert!(outcome(machine).is_ok());
}

#[test]
fn other_firmware_is_replaced_before_opening() {
    let mut machine = Provision::begin(device(0x0833), &resource(), Ok(manifest()), 115_200).unwrap();
    let mut bench = Bench { id: ID, ..bench() };
    let mut looks = 0;
    let actions = provision(&mut machine, &mut bench, |action, _| {
        if *action == Action::Enumerate {
            looks += 1;
            if looks == 1 {
                return Some(Event::Enumerated(Ok(Vec::new())));
            }
        }
        None
    });
    assert_eq!(actions[0], Action::OpenDevice { position: 6 });
    assert_eq!(actions[2], Action::WriteRam { index: 0 });
    assert!(actions.contains(&Action::OpenDevice { position: 8 }));
    assert!(outcome(machine).is_ok());
}

#[test]
fn provisioning_reports_each_failure() {
    let fail = |version: u16, matching: Action, event: fn() -> Event| {
        let mut machine =
            Provision::begin(device(version), &resource(), Ok(manifest()), 115_200).unwrap();
        provision(&mut machine, &mut bench(), |action, _| {
            (*action == matching).then_some(())?;
            Some(event())
        });
        outcome(machine).unwrap_err().message().to_owned()
    };
    let why = || Event::Failed("why".to_owned());
    assert_eq!(
        fail(0x0933, Action::OpenDevice { position: 6 }, why),
        "cannot open Glasgow S at 1-1: why"
    );
    assert_eq!(
        fail(0x0833, Action::OpenDevice { position: 6 }, why),
        "cannot open Glasgow for firmware upload: why"
    );
    assert_eq!(
        fail(0x0833, Action::WriteRam { index: 2 }, why),
        "Cypress RAM upload failed: why"
    );
    assert_eq!(
        fail(0x0933, Action::WriteBitstream, why),
        "Glasgow FPGA upload failed: why"
    );
    assert_eq!(
        fail(
            0x0933,
            Action::OpenIn {
                role: Role::Rx,
                endpoint: 0x88
            },
            why
        ),
        "Glasgow UART RX endpoint mismatch: why"
    );
    assert_eq!(
        fail(0x0933, Action::Exchange, || Event::Exchanged(
            Exchange::Reply(vec![0xee])
        )),
        "Glasgow management response serial mismatch"
    );
    assert_eq!(
        fail(0x0933, Action::ReportPacketSizes, || Event::PacketSizes {
            rx: 64,
            tx: 512
        }),
        "Glasgow UART endpoint max-packet mismatch"
    );
    assert_eq!(
        fail(0x0833, Action::Enumerate, || Event::Enumerated(Ok(
            Vec::new()
        ))),
        "Glasgow did not re-enumerate after FX2 firmware upload"
    );
    assert_eq!(
        fail(0x0833, Action::Enumerate, || Event::Enumerated(Ok(vec![
            descriptor(Some("S"), 0x0833, "1-1", 1)
        ]))),
        "Glasgow firmware re-enumerated with incompatible API or revision"
    );
}

#[test]
fn provisioning_checks_the_line_rate_and_the_identity() {
    let mut machine =
        Provision::begin(device(0x0933), &resource(), Ok(manifest()), 11_000_000).unwrap();
    let mut bench = bench();
    provision(&mut machine, &mut bench, |_, _| None);
    assert!(matches!(outcome(machine), Err(AppError::Validation(_))));
    assert!(!bench.supply);

    let mut stranger = device(0x0833);
    stranger.native.vendor_id = 1;
    let machine = Provision::begin(stranger, &resource(), Ok(manifest()), 115_200).unwrap();
    assert_eq!(
        outcome(machine).unwrap_err().message(),
        "refusing firmware upload to a non-Glasgow USB identity"
    );
    assert!(Provision::begin(device(0x0933), &resource(), Err("x".to_owned()), 115_200).is_err());
    let machine = Provision::begin(device(0x0933), &resource(), Ok(manifest()), 115_200).unwrap();
    assert!(machine.finish().is_none());
}

#[test]
fn a_stuck_fpga_times_out() {
    let mut machine = Provision::begin(device(0x0933), &resource(), Ok(manifest()), 115_200).unwrap();
    let mut bench = Bench {
        waits: usize::MAX,
        ..bench()
    };
    let actions = provision(&mut machine, &mut bench, |_, _| None);
    let pauses = actions
        .iter()
        .filter(|action| matches!(action, Action::Pause { millis: 10 }))
        .count();
    assert_eq!(pauses, 200);
    assert_eq!(
        outcome(machine).unwrap_err().message(),
        "Glasgow FPGA configuration failed with [01]"
    );
}

#[test]
fn receive_counters_count_from_their_baseline() {
    let mut counters = ReceiveCounters::new(5, 10, Span::zero());
    assert!(!counters.due(Span::from_millis(249)));
    assert!(counters.due(Span::from_millis(250)));
    counters.refresh(8, 4, Span::from_millis(250));
    assert_eq!(counters.snapshot().rx_errors, 3);
    assert_eq!(counters.snapshot().rx_overflow, 0);
    assert!(!counters.due(Span::from_millis(300)));
}

#[test]
fn a_failed_refresh_fails_the_read_but_keeps_its_bytes() {
    let kept = read_outcome(TransferOutcome::complete(4), Ok(()));
    assert_eq!(kept.completed, 4);
    assert!(kept.failure.is_none());
    let failed = read_outcome(
        TransferOutcome::complete(4),
        Err(AppError::Access("no reply".to_owned())),
    );
    assert_eq!(failed.completed, 4);
    let failure = failed.failure.unwrap();
    assert_eq!(failure.kind, TransferFailureKind::Protocol);
    assert_eq!(failure.message, "no reply");
}

#[test]
fn an_idle_transmitter_is_drained() {
    let timeout = Span::from_millis(40);
    assert!(matches!(
        drain_poll(0x8000_0000, true, timeout),
        DrainProgress::Done
    ));
    assert!(matches!(
        drain_poll(0x8000_0001, false, timeout),
        DrainProgress::Wait
    ));
    match drain_poll(0, true, timeout) {
        DrainProgress::Overdue(error) => {
            assert_eq!(error.message(), "Glasgow UART did not drain within 40 ms");
        }
        _ => panic!("not overdue"),
    }
}
