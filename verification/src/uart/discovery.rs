//! What discovery finds, and in what order.

use vstd::prelude::*;

use crate::c232::usb::tool_metadata;
use crate::error::Category;
use crate::glasgow::device::{
    listed as spelled_glasgows, recovery_positions, selected as selected_spelled,
    GlasgowDeviceInfo, GlasgowDeviceView,
};
use crate::order::{
    bytes_before, device_key, distinct_from, distinct_items_stand_for_all, key_before,
    sorted_from, sorting_keeps_every_item, DeviceKey,
};
use crate::selection::{matching, meets, Serialled};
use crate::text::{decimal, hex_word};
use crate::usb::UsbDescriptorView;

use super::c232::{normalized_usb, normalized_vcp};
use super::c232::opening::cable_metadata;
use super::c232::usb::{cables, is_cable, selected as selected_cable, UsbDeviceInfo, UsbDeviceView};
use super::c232::vcp::{
    least_link, opening_path, port_device, port_devices, reached, selected as selected_port,
    step_after, vcp_metadata, wanted, DevicePaths, OpenStep, PortRecord, StableLink, VcpDevice,
    VcpDeviceView,
};
use super::glasgow::device::{
    described, glasgows, is_glasgow, is_recovery, recoverable, revision_text,
    selected as selected_glasgow, DeviceInfo, DeviceInfoView, RecoveryCandidate,
    RecoveryCandidateView,
};

verus! {

/// The order of byte strings is that of their first difference, and a string comes before what
/// it begins.
pub proof fn bytes_are_ordered_by_their_first_difference(left: Seq<u8>, right: Seq<u8>, at: int)
    requires
        0 <= at <= left.len(),
        at <= right.len(),
        forall|i: int| 0 <= i < at ==> left[i] == right[i],
    ensures
        at < left.len() && at < right.len() && left[at] < right[at] ==> bytes_before(left, right)
            && !bytes_before(right, left),
        at == left.len() && at < right.len() ==> bytes_before(left, right) && !bytes_before(
            right,
            left,
        ),
    decreases left.len(),
{
    if at > 0 {
        assert(left[0] == right[0]);
        let (l, r) = (left.drop_first(), right.drop_first());
        assert forall|i: int| 0 <= i < at - 1 implies l[i] == r[i] by {
            assert(left[i + 1] == right[i + 1]);
        }
        bytes_are_ordered_by_their_first_difference(l, r, at - 1);
    }
}

/// Devices are ordered by serial number first, one without a serial number before all others, and
/// by path among those with the same serial number.
pub proof fn serials_come_before_paths(left: DeviceKey, right: DeviceKey)
    ensures
        left.serial is None && right.serial is Some ==> key_before(left, right) && !key_before(
            right,
            left,
        ),
        left.serial is Some && right.serial is Some && bytes_before(
            left.serial->0,
            right.serial->0,
        ) ==> key_before(left, right),
        left.serial == right.serial && bytes_before(left.path, right.path) ==> key_before(
            left,
            right,
        ),
{
}

/// A picked and converted item comes from an item that qualifies, and each that qualifies is
/// picked.
proof fn lemma_picked<A, B>(
    items: Seq<A>,
    keep: spec_fn(A) -> bool,
    convert: spec_fn(A) -> B,
    item: B,
)
    ensures
        items.filter(keep).map_values(convert).contains(item) <==> exists|i: int|
            0 <= i < items.len() && keep(#[trigger] items[i]) && convert(items[i]) == item,
        items.filter(keep).map_values(convert).len() <= items.len(),
    decreases items.len(),
{
    reveal(Seq::filter);
    let picked = items.filter(keep).map_values(convert);
    if items.len() > 0 {
        let rest = items.drop_last();
        let last = items.len() - 1;
        let before = rest.filter(keep).map_values(convert);
        lemma_picked(rest, keep, convert, item);
        if keep(items[last]) {
            assert(picked =~= before.push(convert(items[last])));
            assert(picked[before.len() as int] == convert(items[last]));
        } else {
            assert(picked =~= before);
        }
        if picked.contains(item) {
            let k = choose|k: int| 0 <= k < picked.len() && picked[k] == item;
            if k < before.len() {
                assert(before[k] == item);
                let i = choose|i: int|
                    0 <= i < rest.len() && keep(#[trigger] rest[i]) && convert(rest[i]) == item;
                assert(keep(items[i]) && convert(items[i]) == item);
            } else {
                assert(keep(items[last]) && convert(items[last]) == item);
            }
        }
        if exists|i: int|
            0 <= i < items.len() && keep(#[trigger] items[i]) && convert(items[i]) == item {
            let i = choose|i: int|
                0 <= i < items.len() && keep(#[trigger] items[i]) && convert(items[i]) == item;
            if i < last {
                assert(keep(rest[i]) && convert(rest[i]) == item);
                assert(before.contains(item));
                let k = choose|k: int| 0 <= k < before.len() && before[k] == item;
                assert(picked[k] == item);
            } else {
                assert(picked[before.len() as int] == item);
            }
        }
    }
}

/// Whether a descriptor is that of this cable.
pub open spec fn is_descriptor_of_cable(
    descriptor: UsbDescriptorView,
    cable: UsbDeviceView,
) -> bool {
    &&& descriptor.vendor_id == 0x0403
    &&& descriptor.product_id == 0x6014
    &&& descriptor.product == Some("C232HD-DDHSP-0"@)
    &&& descriptor.serial == Some(cable.serial)
    &&& descriptor.bus_id == cable.path
    &&& descriptor.native == cable.native
}

/// The listed cables are just those that were found, whatever else is attached, in the order of
/// their serial numbers and paths.
pub proof fn every_cable_is_listed(
    found: Seq<UsbDescriptorView>,
    devices: Seq<UsbDeviceView>,
    cable: UsbDeviceView,
)
    requires
        sorted_from::<UsbDeviceInfo>(cables(found), devices),
    ensures
        devices.contains(cable) <==> exists|i: int|
            0 <= i < found.len() && is_descriptor_of_cable(#[trigger] found[i], cable),
        forall|i: int, j: int|
            0 <= i < j < devices.len() ==> !key_before(
                device_key(Some((#[trigger] devices[j]).serial), devices[j].path),
                device_key(Some((#[trigger] devices[i]).serial), devices[i].path),
            ),
{
    sorting_keeps_every_item::<UsbDeviceInfo>(cables(found), devices, cable);
    let keep = |descriptor: UsbDescriptorView| is_cable(descriptor);
    let convert = |descriptor: UsbDescriptorView|
        UsbDeviceView {
            serial: descriptor.serial->0,
            path: descriptor.bus_id,
            native: descriptor.native,
        };
    assert(cables(found) == found.filter(keep).map_values(convert));
    lemma_picked(found, keep, convert, cable);
    assert forall|i: int| 0 <= i < found.len() implies (keep(#[trigger] found[i]) && convert(
        found[i],
    ) == cable) == is_descriptor_of_cable(found[i], cable) by {}
    if devices.contains(cable) {
        let i = choose|i: int|
            0 <= i < found.len() && keep(#[trigger] found[i]) && convert(found[i]) == cable;
        assert(is_descriptor_of_cable(found[i], cable));
    }
    if exists|i: int| 0 <= i < found.len() && is_descriptor_of_cable(#[trigger] found[i], cable) {
        let i = choose|i: int|
            0 <= i < found.len() && is_descriptor_of_cable(#[trigger] found[i], cable);
        assert(keep(found[i]) && convert(found[i]) == cable);
    }
}

/// Whether a descriptor is that of this Glasgow: its low version byte is the board revision, and
/// its high one the firmware's level, of which level nine is the one that can be spoken to.
pub open spec fn is_descriptor_of_glasgow(
    descriptor: UsbDescriptorView,
    device: DeviceInfoView,
) -> bool {
    &&& descriptor.vendor_id == 0x20b7 && device.vendor_id == 0x20b7
    &&& descriptor.product_id == 0x9db1 && device.product_id == 0x9db1
    &&& descriptor.serial == device.serial
    &&& descriptor.bus_id == device.path
    &&& descriptor.native == device.native
    &&& device.api_level == descriptor.device_version as int / 256
    &&& device.api_compatible == (descriptor.device_version as int / 256 == 9)
    &&& device.revision == revision_text((descriptor.device_version as int % 256) as u8)
}

proof fn lemma_glasgows(found: Seq<UsbDescriptorView>, device: DeviceInfoView)
    ensures
        glasgows(found).contains(device) <==> exists|i: int|
            0 <= i < found.len() && is_descriptor_of_glasgow(#[trigger] found[i], device),
{
    let keep = |descriptor: UsbDescriptorView| is_glasgow(descriptor);
    let convert = |descriptor: UsbDescriptorView| described(descriptor);
    assert(glasgows(found) == found.filter(keep).map_values(convert));
    lemma_picked(found, keep, convert, device);
    if glasgows(found).contains(device) {
        let i = choose|i: int|
            0 <= i < found.len() && keep(#[trigger] found[i]) && convert(found[i]) == device;
        assert(is_descriptor_of_glasgow(found[i], device));
    }
    if exists|i: int|
        0 <= i < found.len() && is_descriptor_of_glasgow(#[trigger] found[i], device) {
        let i = choose|i: int|
            0 <= i < found.len() && is_descriptor_of_glasgow(#[trigger] found[i], device);
        assert(convert(found[i]) =~= device);
        assert(keep(found[i]));
    }
}

/// The listed Glasgow devices are just those that were found, in the order of their serial numbers
/// and paths.
pub proof fn every_glasgow_is_listed(
    found: Seq<UsbDescriptorView>,
    devices: Seq<DeviceInfoView>,
    device: DeviceInfoView,
)
    requires
        sorted_from::<DeviceInfo>(glasgows(found), devices),
    ensures
        devices.contains(device) <==> exists|i: int|
            0 <= i < found.len() && is_descriptor_of_glasgow(#[trigger] found[i], device),
        forall|i: int, j: int|
            0 <= i < j < devices.len() ==> !key_before(
                device_key((#[trigger] devices[j]).serial, devices[j].path),
                device_key((#[trigger] devices[i]).serial, devices[i].path),
            ),
{
    sorting_keeps_every_item::<DeviceInfo>(glasgows(found), devices, device);
    lemma_glasgows(found, device);
}

/// Whether two forms of a device say the same, one with its identifiers spelled out.
pub open spec fn says_the_same(device: DeviceInfoView, spelling: GlasgowDeviceView) -> bool {
    &&& spelling.serial == device.serial
    &&& spelling.revision == device.revision
    &&& spelling.api_level == device.api_level
    &&& spelling.api_compatible == device.api_compatible
    &&& spelling.path == device.path
    &&& spelling.vid == hex_word(device.vendor_id)
    &&& spelling.pid == hex_word(device.product_id)
    &&& spelling.native.vendor_id == device.vendor_id
    &&& spelling.native.product_id == device.product_id
    &&& spelling.native.position == device.native
}

/// The devices with their identifiers spelled out are the same devices.
pub proof fn spelling_keeps_every_glasgow(
    found: Seq<UsbDescriptorView>,
    devices: Seq<GlasgowDeviceView>,
    spelling: GlasgowDeviceView,
)
    requires
        sorted_from::<GlasgowDeviceInfo>(spelled_glasgows(found), devices),
        devices.contains(spelling),
    ensures
        exists|i: int, device: DeviceInfoView|
            {
                &&& 0 <= i < found.len()
                &&& #[trigger] is_descriptor_of_glasgow(found[i], device)
                &&& says_the_same(device, spelling)
            },
        spelled_glasgows(found).len() == glasgows(found).len(),
        forall|i: int, j: int|
            0 <= i < j < devices.len() ==> !key_before(
                device_key((#[trigger] devices[j]).serial, devices[j].path),
                device_key((#[trigger] devices[i]).serial, devices[i].path),
            ),
{
    sorting_keeps_every_item::<GlasgowDeviceInfo>(spelled_glasgows(found), devices, spelling);
    let all = spelled_glasgows(found);
    let k = choose|k: int| 0 <= k < all.len() && all[k] == spelling;
    let device = glasgows(found)[k];
    assert(glasgows(found).contains(device));
    lemma_glasgows(found, device);
    let i = choose|i: int|
        0 <= i < found.len() && is_descriptor_of_glasgow(#[trigger] found[i], device);
    assert(is_descriptor_of_glasgow(found[i], device) && says_the_same(device, spelling));
}

/// A board revision is a letter and a digit, which tell the two halves of its number.
pub proof fn revisions_are_spelled(value: u8)
    requires
        value >= 16,
        value as int % 16 <= 9,
    ensures
        revision_text(value).len() == 2,
        revision_text(value)[0] as int == 64 + value as int / 16,
        revision_text(value)[1] as int == 48 + value as int % 16,
{
    assert(decimal((value as int % 16) as nat).len() == 1);
}

/// The devices in recovery mode are just those that were found, in the order of their paths, and
/// their positions are known in the order in which they were found.
pub proof fn every_recovery_device_is_listed(
    found: Seq<UsbDescriptorView>,
    devices: Seq<RecoveryCandidateView>,
    device: RecoveryCandidateView,
    position: usize,
)
    requires
        sorted_from::<RecoveryCandidate>(recoverable(found), devices),
    ensures
        devices.contains(device) <==> device.vendor_id == 0x04b4 && device.product_id == 0x8613 && (
        exists|i: int|
            0 <= i < found.len() && (#[trigger] found[i]).vendor_id == 0x04b4
                && found[i].product_id == 0x8613 && found[i].bus_id == device.path),
        recovery_positions(found).contains(position) <==> exists|i: int|
            0 <= i < found.len() && (#[trigger] found[i]).vendor_id == 0x04b4
                && found[i].product_id == 0x8613 && found[i].native == position,
        forall|i: int, j: int|
            0 <= i < j < devices.len() ==> !key_before(
                device_key(None, (#[trigger] devices[j]).path),
                device_key(None, (#[trigger] devices[i]).path),
            ),
{
    sorting_keeps_every_item::<RecoveryCandidate>(recoverable(found), devices, device);
    let keep = |descriptor: UsbDescriptorView| is_recovery(descriptor);
    let convert = |descriptor: UsbDescriptorView|
        RecoveryCandidateView {
            vendor_id: 0x04b4,
            product_id: 0x8613,
            path: descriptor.bus_id,
        };
    let locate = |descriptor: UsbDescriptorView| descriptor.native;
    assert(recoverable(found) =~= found.filter(keep).map_values(convert));
    lemma_picked(found, keep, convert, device);
    lemma_picked(found, keep, locate, position);
    if devices.contains(device) {
        let i = choose|i: int|
            0 <= i < found.len() && keep(#[trigger] found[i]) && convert(found[i]) == device;
        assert(found[i].bus_id == device.path);
    }
    if device.vendor_id == 0x04b4 && device.product_id == 0x8613 && (exists|i: int|
        0 <= i < found.len() && (#[trigger] found[i]).vendor_id == 0x04b4 && found[i].product_id
            == 0x8613 && found[i].bus_id == device.path) {
        let i = choose|i: int|
            0 <= i < found.len() && (#[trigger] found[i]).vendor_id == 0x04b4
                && found[i].product_id == 0x8613 && found[i].bus_id == device.path;
        assert(convert(found[i]) =~= device);
        assert(keep(found[i]));
    }
    if recovery_positions(found).contains(position) {
        let i = choose|i: int|
            0 <= i < found.len() && keep(#[trigger] found[i]) && locate(found[i]) == position;
        assert(found[i].native == position);
    }
    if exists|i: int|
        0 <= i < found.len() && (#[trigger] found[i]).vendor_id == 0x04b4 && found[i].product_id
            == 0x8613 && found[i].native == position {
        let i = choose|i: int|
            0 <= i < found.len() && (#[trigger] found[i]).vendor_id == 0x04b4
                && found[i].product_id == 0x8613 && found[i].native == position;
        assert(keep(found[i]) && locate(found[i]) == position);
    }
}

/// The text that enumeration gives, or else the one of the device tree.
pub open spec fn known(first: Option<Option<String>>, second: Option<String>) -> Option<Seq<char>> {
    if first is Some && first->0 is Some {
        Some((first->0)->0@)
    } else if second is Some {
        Some(second->0@)
    } else {
        None
    }
}

/// Whether a serial port is that of this cable. Enumeration comes before the device tree.
pub open spec fn is_port_of_cable(port: PortRecord, cable: VcpDeviceView) -> bool {
    &&& port.usb matches Some(usb) ==> usb.vid == 0x0403 && usb.pid == 0x6014
    &&& port.usb is None ==> port.sysfs.vid == Some(0x0403u16) && port.sysfs.pid == Some(0x6014u16)
    &&& known(
        match port.usb {
            Some(usb) => Some(usb.product),
            None => None,
        },
        port.sysfs.product,
    ) == Some("C232HD-DDHSP-0"@)
    &&& known(
        match port.usb {
            Some(usb) => Some(usb.serial_number),
            None => None,
        },
        port.sysfs.serial,
    ) == Some(cable.serial)
    &&& cable.product == "C232HD-DDHSP-0"@
    &&& cable.vid == hex_word(0x0403)
    &&& cable.pid == hex_word(0x6014)
    &&& cable.port == port.name@
    &&& cable.stable_path is Some == port.stable_path is Some
    &&& port.stable_path is Some ==> cable.stable_path == Some(port.stable_path->0@)
}

proof fn lemma_port_devices(ports: Seq<PortRecord>, cable: VcpDeviceView)
    ensures
        port_devices(ports).contains(cable) <==> exists|i: int|
            0 <= i < ports.len() && is_port_of_cable(#[trigger] ports[i], cable),
    decreases ports.len(),
{
    if ports.len() > 0 {
        let rest = ports.drop_last();
        let last = ports.len() - 1;
        let before = port_devices(rest);
        let all = port_devices(ports);
        lemma_port_devices(rest, cable);
        assert((port_device(ports[last]) == Some(cable)) == is_port_of_cable(ports[last], cable)) by {
            if let Some(device) = port_device(ports[last]) {
                if is_port_of_cable(ports[last], cable) {
                    assert(device =~= cable);
                }
            }
        }
        if all.contains(cable) {
            let k = choose|k: int| 0 <= k < all.len() && all[k] == cable;
            if k < before.len() {
                assert(before[k] == cable);
                let i = choose|i: int|
                    0 <= i < rest.len() && is_port_of_cable(#[trigger] rest[i], cable);
                assert(is_port_of_cable(ports[i], cable));
            } else {
                assert(is_port_of_cable(ports[last], cable));
            }
        }
        if exists|i: int| 0 <= i < ports.len() && is_port_of_cable(#[trigger] ports[i], cable) {
            let i = choose|i: int|
                0 <= i < ports.len() && is_port_of_cable(#[trigger] ports[i], cable);
            if i < last {
                assert(is_port_of_cable(rest[i], cable));
                let k = choose|k: int| 0 <= k < before.len() && before[k] == cable;
                assert(all[k] == cable);
            } else {
                assert(all[before.len() as int] == cable);
            }
        }
    }
}

/// The cables that are listed by serial port are cables that were found, no two of them have one
/// serial number and one port, and each that was found is listed under its own. They stand in the
/// order of their serial numbers and ports.
pub proof fn every_port_of_a_cable_is_listed(
    ports: Seq<PortRecord>,
    devices: Seq<VcpDeviceView>,
    cable: VcpDeviceView,
)
    requires
        distinct_from::<VcpDevice>(port_devices(ports), devices),
    ensures
        devices.contains(cable) ==> exists|i: int|
            0 <= i < ports.len() && is_port_of_cable(#[trigger] ports[i], cable),
        (exists|i: int| 0 <= i < ports.len() && is_port_of_cable(#[trigger] ports[i], cable))
            ==> exists|k: int|
            0 <= k < devices.len() && device_key(
                Some((#[trigger] devices[k]).serial),
                devices[k].port,
            ) == device_key(Some(cable.serial), cable.port),
        forall|i: int, j: int|
            0 <= i < j < devices.len() ==> key_before(
                device_key(Some((#[trigger] devices[i]).serial), devices[i].port),
                device_key(Some((#[trigger] devices[j]).serial), devices[j].port),
            ),
{
    lemma_port_devices(ports, cable);
    distinct_items_stand_for_all::<VcpDevice>(port_devices(ports), devices, cable);
}

/// Whether a device has what was asked for: the serial number, where one was given.
pub open spec fn has_requested(serial: Option<Seq<char>>, requested: Option<Seq<char>>) -> bool {
    requested is Some ==> serial == requested
}

/// Whether two different devices meet a request.
pub open spec fn two_meet<T: Serialled>(
    devices: Seq<T::V>,
    requested: Option<Seq<char>>,
    i: int,
    j: int,
) -> bool {
    &&& 0 <= i < j < devices.len()
    &&& has_requested(T::serial(devices[i]), requested)
    &&& has_requested(T::serial(devices[j]), requested)
}

/// How many devices meet a request is how many are found.
proof fn lemma_matching<T: Serialled>(devices: Seq<T::V>, requested: Option<Seq<char>>)
    ensures
        matching::<T>(devices, requested).len() >= 1 <==> exists|i: int|
            0 <= i < devices.len() && has_requested(T::serial(#[trigger] devices[i]), requested),
        matching::<T>(devices, requested).len() >= 2 <==> exists|i: int, j: int| #[trigger]
            two_meet::<T>(devices, requested, i, j),
        forall|k: int|
            0 <= k < matching::<T>(devices, requested).len() ==> devices.contains(
                #[trigger] matching::<T>(devices, requested)[k],
            ) && has_requested(T::serial(matching::<T>(devices, requested)[k]), requested),
    decreases devices.len(),
{
    reveal(Seq::filter);
    let found = matching::<T>(devices, requested);
    if devices.len() > 0 {
        let rest = devices.drop_last();
        let last = devices.len() - 1;
        let before = matching::<T>(rest, requested);
        lemma_matching::<T>(rest, requested);
        assert(meets::<T>(requested)(devices[last]) == has_requested(
            T::serial(devices[last]),
            requested,
        ));
        assert(forall|i: int| 0 <= i < last ==> #[trigger] rest[i] == devices[i]);
        assert forall|k: int| 0 <= k < found.len() implies devices.contains(
            #[trigger] found[k],
        ) && has_requested(T::serial(found[k]), requested) by {
            if k < before.len() {
                assert(found[k] == before[k]);
                let i = choose|i: int| 0 <= i < rest.len() && rest[i] == before[k];
                assert(devices[i] == before[k]);
            } else {
                assert(devices[last] == found[k]);
            }
        }
        if before.len() >= 1 {
            let i = choose|i: int|
                0 <= i < rest.len() && has_requested(T::serial(#[trigger] rest[i]), requested);
            assert(has_requested(T::serial(devices[i]), requested));
            if meets::<T>(requested)(devices[last]) {
                assert(two_meet::<T>(devices, requested, i, last));
            }
        }
        if before.len() >= 2 {
            let (i, j) = choose|i: int, j: int| #[trigger] two_meet::<T>(rest, requested, i, j);
            assert(two_meet::<T>(devices, requested, i, j));
        }
        if exists|i: int, j: int| #[trigger] two_meet::<T>(devices, requested, i, j) {
            let (i, j) = choose|i: int, j: int| #[trigger] two_meet::<T>(devices, requested, i, j);
            assert(has_requested(T::serial(rest[i]), requested));
            if j < last {
                assert(two_meet::<T>(rest, requested, i, j));
            }
        }
        if exists|i: int|
            0 <= i < devices.len() && has_requested(T::serial(#[trigger] devices[i]), requested) {
            let i = choose|i: int|
                0 <= i < devices.len() && has_requested(T::serial(#[trigger] devices[i]), requested);
            if i < last {
                assert(has_requested(T::serial(rest[i]), requested));
            }
        }
        if meets::<T>(requested)(devices[last]) {
            assert(has_requested(T::serial(devices[last]), requested));
        }
    }
}

/// A cable is selected where one and only one has the serial number that was asked for, or is
/// there at all where none was asked for. None and several are told apart.
pub proof fn cables_are_selected_alone(
    devices: Seq<UsbDeviceView>,
    requested: Option<Seq<char>>,
)
    ensures
        match selected_cable(devices, requested) {
            Ok(device) => {
                &&& devices.contains(device)
                &&& has_requested(Some(device.serial), requested)
                &&& forall|i: int, j: int| !#[trigger]
                    two_meet::<UsbDeviceInfo>(devices, requested, i, j)
            },
            Err(error) => {
                &&& error.category == Category::Selection
                &&& error.message == "no matching C232HD-DDHSP-0 USB device was found"@ ==> forall|
                    i: int,
                |
                    0 <= i < devices.len() ==> !has_requested(
                        Some((#[trigger] devices[i]).serial),
                        requested,
                    )
                &&& error.message != "no matching C232HD-DDHSP-0 USB device was found"@ ==> exists|
                    i: int,
                    j: int,
                | #[trigger] two_meet::<UsbDeviceInfo>(devices, requested, i, j)
            },
        },
{
    lemma_matching::<UsbDeviceInfo>(devices, requested);
    reveal_strlit("no matching C232HD-DDHSP-0 USB device was found");
    reveal_strlit("multiple C232HD-DDHSP-0 devices match; specify --serial");
    assert("no matching C232HD-DDHSP-0 USB device was found"@[0] == 'n');
    assert("multiple C232HD-DDHSP-0 devices match; specify --serial"@[0] == 'm');
    assert(forall|i: int|
        0 <= i < devices.len() ==> <UsbDeviceInfo as Serialled>::serial(#[trigger] devices[i])
            == Some(devices[i].serial));
}

/// A Glasgow is selected where one and only one has the serial number that was asked for, or is
/// there at all where none was asked for. None and several are told apart.
pub proof fn glasgows_are_selected_alone(
    devices: Seq<DeviceInfoView>,
    requested: Option<Seq<char>>,
)
    ensures
        match selected_glasgow(devices, requested) {
            Ok(device) => {
                &&& devices.contains(device)
                &&& has_requested(device.serial, requested)
                &&& forall|i: int, j: int| !#[trigger]
                    two_meet::<DeviceInfo>(devices, requested, i, j)
            },
            Err(error) => {
                &&& error.category == Category::Selection
                &&& error.message == "no matching Glasgow was found"@ ==> forall|i: int|
                    0 <= i < devices.len() ==> !has_requested(
                        (#[trigger] devices[i]).serial,
                        requested,
                    )
                &&& error.message != "no matching Glasgow was found"@ ==> exists|i: int, j: int|
                     #[trigger] two_meet::<DeviceInfo>(devices, requested, i, j)
            },
        },
{
    lemma_matching::<DeviceInfo>(devices, requested);
    reveal_strlit("no matching Glasgow was found");
    reveal_strlit("multiple Glasgow devices match; specify --serial");
    assert("no matching Glasgow was found"@[0] == 'n');
    assert("multiple Glasgow devices match; specify --serial"@[0] == 'm');
    assert(forall|i: int|
        0 <= i < devices.len() ==> <DeviceInfo as Serialled>::serial(#[trigger] devices[i])
            == devices[i].serial);
}

/// The same choice is made among the devices with their identifiers spelled out.
pub proof fn spelled_glasgows_are_selected_alone(
    devices: Seq<GlasgowDeviceView>,
    requested: Option<Seq<char>>,
)
    ensures
        match selected_spelled(devices, requested) {
            Ok(device) => {
                &&& devices.contains(device)
                &&& has_requested(device.serial, requested)
                &&& forall|i: int, j: int| !#[trigger]
                    two_meet::<GlasgowDeviceInfo>(devices, requested, i, j)
            },
            Err(error) => {
                &&& error.category == Category::Selection
                &&& error.message == "no matching Glasgow was found"@ ==> forall|i: int|
                    0 <= i < devices.len() ==> !has_requested(
                        (#[trigger] devices[i]).serial,
                        requested,
                    )
                &&& error.message != "no matching Glasgow was found"@ ==> exists|i: int, j: int|
                     #[trigger] two_meet::<GlasgowDeviceInfo>(devices, requested, i, j)
            },
        },
{
    lemma_matching::<GlasgowDeviceInfo>(devices, requested);
    reveal_strlit("no matching Glasgow was found");
    reveal_strlit("multiple Glasgow devices match; specify --serial");
    assert("no matching Glasgow was found"@[0] == 'n');
    assert("multiple Glasgow devices match; specify --serial"@[0] == 'm');
    assert(forall|i: int|
        0 <= i < devices.len() ==> <GlasgowDeviceInfo as Serialled>::serial(#[trigger] devices[i])
            == devices[i].serial);
}

/// A serial port is opened step by step, none left out: both modem lines are made inactive and
/// stale input is cleared before the second handle is made.
pub proof fn ports_are_opened_step_by_step(steps: Seq<OpenStep>)
    requires
        steps.len() > 0,
        steps[0] == OpenStep::Open,
        forall|i: int|
            0 <= i < steps.len() - 1 ==> step_after(#[trigger] steps[i]) == Some(steps[i + 1]),
        step_after(steps.last()) is None,
    ensures
        steps == seq![
            OpenStep::Open,
            OpenStep::DeassertDtr,
            OpenStep::DeassertRts,
            OpenStep::ClearInput,
            OpenStep::CloneHandle,
        ],
{
    let n = steps.len();
    assert(n > 1 && steps[0int + 1] == OpenStep::DeassertDtr);
    assert(n > 2 && steps[1int + 1] == OpenStep::DeassertRts);
    assert(n > 3 && steps[2int + 1] == OpenStep::ClearInput);
    assert(n > 4 && steps[3int + 1] == OpenStep::CloneHandle);
    assert(steps[4] == OpenStep::CloneHandle);
    assert(n == 5);
}

/// A serial port is opened by the path that was asked for; by its stable path where none was; and
/// by its own where it has no stable one.
pub proof fn requested_paths_come_first(device: VcpDeviceView, path: Seq<char>)
    ensures
        opening_path(device, Some(path)) == path,
        device.stable_path is Some ==> Some(opening_path(device, None)) == device.stable_path,
        device.stable_path is None ==> opening_path(device, None) == device.port,
{
}

/// Two paths lead to one device where they are the same or lead to the same file, and a device is
/// reached by its port or by its stable path.
pub proof fn devices_are_reached_by_either_path(paths: DevicePaths)
    ensures
        reached(paths) <==> {
            ||| paths.port.equal
            ||| paths.port.canonical == Some(true)
            ||| paths.stable is Some && paths.stable->0.equal
            ||| paths.stable is Some && paths.stable->0.canonical == Some(true)
        },
{
}

/// A device that is selected among serial ports is one of them, has what was asked for, and is the
/// only one that does; where none is, the error tells whether a path and a serial number were at
/// odds.
pub proof fn ports_are_selected_by_serial_and_path(
    devices: Seq<VcpDeviceView>,
    serial: Option<Seq<char>>,
    paths: Option<Seq<DevicePaths>>,
    i: int,
)
    requires
        0 <= i < devices.len(),
    ensures
        wanted(devices, serial, paths, i) <==> {
            &&& serial is Some ==> devices[i].serial == serial->0
            &&& paths is Some ==> i < paths->0.len() && reached(paths->0[i])
        },
        selected_port(devices, serial, paths) matches Err(error) ==> error.category
            == Category::Selection,
{
}

/// What is listed of a cable is what was found of it, whichever way it is reached: its serial
/// number, where it is attached, and who made it.
pub proof fn listings_keep_what_was_found(cable: UsbDeviceView, port: VcpDeviceView)
    ensures
        normalized_usb(cable).serial == cable.serial,
        normalized_usb(cable).path == cable.path,
        normalized_usb(cable).stable_path is None,
        normalized_usb(cable).product == "C232HD-DDHSP-0"@,
        normalized_usb(cable).backend is Usb,
        normalized_usb(cable).vendor_id == 0x0403 && normalized_usb(cable).product_id == 0x6014,
        normalized_vcp(port).serial == port.serial,
        normalized_vcp(port).path == port.port,
        normalized_vcp(port).stable_path == port.stable_path,
        normalized_vcp(port).product == port.product,
        normalized_vcp(port).backend is Vcp,
        normalized_vcp(port).vendor_id == 0x0403 && normalized_vcp(port).product_id == 0x6014,
{
}

/// What is known of an opened cable is what it was opened with: the rate that was asked for, the
/// rate that is made, its serial number and its path, and the range of rates.
pub proof fn opened_cables_are_described(
    device: UsbDeviceView,
    serial: Seq<char>,
    path: Seq<char>,
    requested: u32,
    actual: u32,
)
    ensures
        ({
            let usb = cable_metadata(device, requested, actual);
            let vcp = vcp_metadata(serial, path, requested, actual);
            let tool = tool_metadata(device, requested, actual);
            &&& usb.requested_baud == requested && vcp.requested_baud == requested
                && tool.requested_baud == requested
            &&& usb.actual_baud == actual && vcp.actual_baud == actual && tool.actual_baud == actual
            &&& usb.serial == Some(device.serial) && usb.path == Some(device.path)
            &&& tool.serial == device.serial && tool.path == Some(device.path)
            &&& vcp.serial == Some(serial) && vcp.path == Some(path)
            &&& usb.minimum_baud == 9_600 && vcp.minimum_baud == 9_600 && tool.minimum_baud == 9_600
            &&& usb.maximum_baud == 12_000_000 && vcp.maximum_baud == 12_000_000
                && tool.maximum_baud == 12_000_000
        }),
{
}

/// The stable path of a port is the link to it whose name comes first: no other link that leads to
/// the port has a name with a smaller byte at the first difference, or begins the chosen one.
pub proof fn stable_paths_have_the_first_name(
    links: Seq<StableLink>,
    at: int,
    other: int,
    same: int,
)
    requires
        least_link(links, at),
        0 <= other < links.len(),
        links[other].same,
        0 <= same <= links[at].name@.len(),
        same <= links[other].name@.len(),
        forall|i: int| 0 <= i < same ==> links[at].name@[i] == links[other].name@[i],
    ensures
        links[at].same,
        same < links[at].name@.len() ==> same < links[other].name@.len(),
        same < links[at].name@.len() ==> links[at].name@[same] <= links[other].name@[same],
        other < at ==> links[other].name@ != links[at].name@,
{
    bytes_are_ordered_by_their_first_difference(links[other].name@, links[at].name@, same);
}

}
