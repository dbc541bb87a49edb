//! Descriptor-only Glasgow discovery and deterministic selection.

use vstd::prelude::*;
use vstd::string::*;

use crate::cli::AppError;
use crate::error::ErrorView;
use crate::order::{
    device_key, key_precedes, keys_coincide, sort_items, sorted_from, DeviceKey, Ordered,
};
use crate::selection::{find_match, matching, Match, Serialled};
use crate::text::{borrow_text, borrowed_view, hex_word, hex_word_text, same_text};
use crate::uart::glasgow::device::{
    describe_glasgows, glasgows, is_recovery, no_glasgow, several_glasgows, DeviceInfo,
    DeviceInfoView,
};
use crate::usb::{
    copy_text, enumeration_error, enumeration_failed, NativeDevice, UsbDescriptor,
    UsbDescriptorView,
};

pub use crate::uart::glasgow::device::{
    decode_revision, API_LEVEL, CYPRESS_PID, CYPRESS_VID, GLASGOW_PID, GLASGOW_VID,
};

verus! {

/// Descriptor-only information about a normal Glasgow device, as the tool lists it.
#[derive(Debug)]
pub struct GlasgowDeviceInfo {
    pub serial: Option<String>,
    pub vid: String,
    pub pid: String,
    pub revision: String,
    pub api_level: u8,
    pub api_compatible: bool,
    pub path: String,
    pub native: NativeDevice,
}

/// Device information with its texts as sequences of characters.
#[verifier::ext_equal]
pub struct GlasgowDeviceView {
    pub serial: Option<Seq<char>>,
    pub vid: Seq<char>,
    pub pid: Seq<char>,
    pub revision: Seq<char>,
    pub api_level: u8,
    pub api_compatible: bool,
    pub path: Seq<char>,
    pub native: NativeDevice,
}

impl DeepView for GlasgowDeviceInfo {
    type V = GlasgowDeviceView;

    open spec fn deep_view(&self) -> GlasgowDeviceView {
        GlasgowDeviceView {
            serial: self.serial.deep_view(),
            vid: self.vid@,
            pid: self.pid@,
            revision: self.revision@,
            api_level: self.api_level,
            api_compatible: self.api_compatible,
            path: self.path@,
            native: self.native,
        }
    }
}

impl Clone for GlasgowDeviceInfo {
    fn clone(&self) -> (copy: GlasgowDeviceInfo)
        ensures
            copy.deep_view() == self.deep_view(),
    {
        GlasgowDeviceInfo {
            serial: copy_text(&self.serial),
            vid: self.vid.clone(),
            pid: self.pid.clone(),
            revision: self.revision.clone(),
            api_level: self.api_level,
            api_compatible: self.api_compatible,
            path: self.path.clone(),
            native: self.native,
        }
    }
}

/// Device information with its identifiers spelled in hexadecimal.
pub open spec fn spelled(device: DeviceInfoView) -> GlasgowDeviceView {
    GlasgowDeviceView {
        serial: device.serial,
        vid: hex_word(GLASGOW_VID),
        pid: hex_word(GLASGOW_PID),
        revision: device.revision,
        api_level: device.api_level,
        api_compatible: device.api_compatible,
        path: device.path,
        native: NativeDevice {
            vendor_id: device.vendor_id,
            product_id: device.product_id,
            position: device.native,
        },
    }
}

/// The Glasgow devices among the descriptors, in enumeration order.
pub open spec fn listed(found: Seq<UsbDescriptorView>) -> Seq<GlasgowDeviceView> {
    glasgows(found).map_values(|device: DeviceInfoView| spelled(device))
}

impl Ordered for GlasgowDeviceInfo {
    open spec fn key(view: GlasgowDeviceView) -> DeviceKey {
        device_key(view.serial, view.path)
    }

    fn precedes(&self, other: &Self) -> (before: bool) {
        key_precedes(
            borrow_text(&self.serial),
            &self.path,
            borrow_text(&other.serial),
            &other.path,
        )
    }

    fn coincides(&self, other: &Self) -> (same: bool) {
        keys_coincide(
            borrow_text(&self.serial),
            &self.path,
            borrow_text(&other.serial),
            &other.path,
        )
    }
}

impl Serialled for GlasgowDeviceInfo {
    open spec fn serial(view: GlasgowDeviceView) -> Option<Seq<char>> {
        view.serial
    }

    fn has_serial(&self, serial: &str) -> (same: bool) {
        match &self.serial {
            Some(own) => same_text(own, serial),
            None => false,
        }
    }
}

/// Picks the Glasgow devices out of what enumeration found.
pub fn describe_devices(found: &Vec<UsbDescriptor>) -> (devices: Vec<GlasgowDeviceInfo>)
    ensures
        devices.deep_view() == listed(found.deep_view()),
{
    let described = describe_glasgows(found);
    let mut devices: Vec<GlasgowDeviceInfo> = Vec::new();
    let mut i: usize = 0;
    assert(devices.deep_view() =~= listed(found.deep_view()).take(0));
    while i < described.len()
        invariant
            i <= described@.len(),
            described.deep_view() == glasgows(found.deep_view()),
            devices.deep_view() == listed(found.deep_view()).take(i as int),
        decreases described@.len() - i,
    {
        let ghost before = devices.deep_view();
        let device: &DeviceInfo = &described[i];
        assert(described.deep_view()[i as int] == device.deep_view());
        devices.push(
            GlasgowDeviceInfo {
                serial: copy_text(&device.serial),
                vid: hex_word_text(GLASGOW_VID),
                pid: hex_word_text(GLASGOW_PID),
                revision: device.revision.clone(),
                api_level: device.api_level,
                api_compatible: device.api_compatible,
                path: device.path.clone(),
                native: NativeDevice {
                    vendor_id: device.vendor_id,
                    product_id: device.product_id,
                    position: device.native,
                },
            },
        );
        assert(devices.deep_view() =~= before.push(spelled(device.deep_view())));
        assert(devices.deep_view() =~= listed(found.deep_view()).take(i + 1));
        i = i + 1;
    }
    assert(listed(found.deep_view()).take(i as int) =~= listed(found.deep_view()));
    devices
}

/// Lists normal Glasgow devices from what enumeration found, by serial number and path.
pub fn list_devices(found: Result<Vec<UsbDescriptor>, String>) -> (result: Result<
    Vec<GlasgowDeviceInfo>,
    AppError,
>)
    ensures
        match (found, result) {
            (Ok(found), Ok(devices)) => sorted_from::<GlasgowDeviceInfo>(
                listed(found.deep_view()),
                devices.deep_view(),
            ),
            (Err(reason), Err(error)) => error.deep_view() == enumeration_error(reason@),
            _ => false,
        },
{
    match found {
        Ok(found) => Ok(sort_items(describe_devices(&found))),
        Err(reason) => Err(AppError::of(enumeration_failed(&reason))),
    }
}

/// The one device that has the requested serial number.
pub open spec fn selected(
    devices: Seq<GlasgowDeviceView>,
    requested: Option<Seq<char>>,
) -> Result<GlasgowDeviceView, ErrorView> {
    let found = matching::<GlasgowDeviceInfo>(devices, requested);
    if found.len() == 0 {
        Err(no_glasgow())
    } else if found.len() == 1 {
        Ok(found[0])
    } else {
        Err(several_glasgows())
    }
}

/// A selection with the device and the error taken by their views.
pub open spec fn selection_view(result: Result<GlasgowDeviceInfo, AppError>) -> Result<
    GlasgowDeviceView,
    ErrorView,
> {
    match result {
        Ok(device) => Ok(device.deep_view()),
        Err(error) => Err(error.deep_view()),
    }
}

/// Selects the one device that has the requested serial number.
pub fn select_device(devices: &[GlasgowDeviceInfo], serial: Option<&str>) -> (result: Result<
    GlasgowDeviceInfo,
    AppError,
>)
    ensures
        selection_view(result) == selected(devices.deep_view(), borrowed_view(serial)),
{
    match find_match(devices, serial) {
        Match::Missing => Err(AppError::Selection("no matching Glasgow was found".to_owned())),
        Match::Single(at) => Ok(devices[at].clone()),
        Match::Several => Err(
            AppError::Selection("multiple Glasgow devices match; specify --serial".to_owned()),
        ),
    }
}

/// The enumeration positions of the recovery-mode devices, in enumeration order.
pub open spec fn recovery_positions(found: Seq<UsbDescriptorView>) -> Seq<usize> {
    found.filter(|descriptor: UsbDescriptorView| is_recovery(descriptor)).map_values(
        |descriptor: UsbDescriptorView| descriptor.native,
    )
}

/// Finds the recovery-mode devices in what enumeration found, by their positions.
pub fn list_recovery_candidates(found: Result<Vec<UsbDescriptor>, String>) -> (result: Result<
    Vec<usize>,
    AppError,
>)
    ensures
        match (found, result) {
            (Ok(found), Ok(positions)) => positions@ == recovery_positions(found.deep_view()),
            (Err(reason), Err(error)) => error.deep_view() == enumeration_error(reason@),
            _ => false,
        },
{
    let found = match found {
        Ok(found) => found,
        Err(reason) => {
            return Err(AppError::of(enumeration_failed(&reason)));
        },
    };
    let ghost views = found.deep_view();
    let mut positions: Vec<usize> = Vec::new();
    let mut i: usize = 0;
    proof {
        reveal(Seq::filter);
        assert(positions@ =~= recovery_positions(views.take(0)));
    }
    while i < found.len()
        invariant
            i <= found@.len(),
            views == found.deep_view(),
            positions@ == recovery_positions(views.take(i as int)),
        decreases found@.len() - i,
    {
        proof {
            reveal(Seq::filter);
            assert(views[i as int] == found@[i as int].deep_view());
            assert(views.take(i + 1).drop_last() =~= views.take(i as int));
            assert(views.take(i + 1).last() == views[i as int]);
        }
        let descriptor = &found[i];
        if descriptor.vendor_id == CYPRESS_VID && descriptor.product_id == CYPRESS_PID {
            positions.push(descriptor.native);
        }
        assert(positions@ =~= recovery_positions(views.take(i + 1)));
        i = i + 1;
    }
    assert(views.take(i as int) =~= views);
    Ok(positions)
}

}
