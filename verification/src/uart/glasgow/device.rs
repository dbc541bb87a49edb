//! Descriptor-only Glasgow discovery and deterministic selection.

use vstd::prelude::*;
use vstd::string::*;

use crate::error::{error_view, Category, Error, ErrorView};
use crate::order::{
    device_key, key_precedes, keys_coincide, sort_items, sorted_from, DeviceKey, Ordered,
};
use crate::selection::{find_match, matching, Match, Serialled};
use crate::text::{
    borrow_text, borrowed_view, decimal, hex_byte, push_decimal, push_hex_byte, same_text,
};
use crate::usb::{
    copy_text, enumeration_error, enumeration_failed, UsbDescriptor, UsbDescriptorView,
};

verus! {

broadcast use vstd::string::group_string_axioms;

pub const GLASGOW_VID: u16 = 0x20b7;

pub const GLASGOW_PID: u16 = 0x9db1;

pub const CYPRESS_VID: u16 = 0x04b4;

pub const CYPRESS_PID: u16 = 0x8613;

/// Firmware API level that this library speaks.
pub const API_LEVEL: u8 = 9;

/// Descriptor-only information about a normal Glasgow device.
#[derive(Debug)]
pub struct DeviceInfo {
    /// USB serial number, when supplied by the device.
    pub serial: Option<String>,
    /// USB vendor identifier.
    pub vendor_id: u16,
    /// USB product identifier.
    pub product_id: u16,
    /// Hardware revision string.
    pub revision: String,
    /// Firmware API level.
    pub api_level: u8,
    /// Whether the firmware API already matches this library.
    pub api_compatible: bool,
    /// Stable attachment path where available.
    pub path: String,
    /// Position in the enumeration.
    pub native: usize,
}

/// Device information with its texts as sequences of characters.
#[verifier::ext_equal]
pub struct DeviceInfoView {
    pub serial: Option<Seq<char>>,
    pub vendor_id: u16,
    pub product_id: u16,
    pub revision: Seq<char>,
    pub api_level: u8,
    pub api_compatible: bool,
    pub path: Seq<char>,
    pub native: usize,
}

impl DeepView for DeviceInfo {
    type V = DeviceInfoView;

    open spec fn deep_view(&self) -> DeviceInfoView {
        DeviceInfoView {
            serial: self.serial.deep_view(),
            vendor_id: self.vendor_id,
            product_id: self.product_id,
            revision: self.revision@,
            api_level: self.api_level,
            api_compatible: self.api_compatible,
            path: self.path@,
            native: self.native,
        }
    }
}

impl Clone for DeviceInfo {
    fn clone(&self) -> (copy: DeviceInfo)
        ensures
            copy.deep_view() == self.deep_view(),
    {
        DeviceInfo {
            serial: copy_text(&self.serial),
            vendor_id: self.vendor_id,
            product_id: self.product_id,
            revision: self.revision.clone(),
            api_level: self.api_level,
            api_compatible: self.api_compatible,
            path: self.path.clone(),
            native: self.native,
        }
    }
}

/// The spelling of a board revision: a letter and a digit, or the raw value.
pub open spec fn revision_text(value: u8) -> Seq<char> {
    let major = value as int / 16;
    let minor = value as int % 16;
    if 1 <= major && minor <= 9 {
        seq![(64 + major) as char] + decimal(minor as nat)
    } else {
        "unknown-"@ + hex_byte(value)
    }
}

/// Decodes the board revision in the low byte of the device release number.
#[must_use]
pub fn decode_revision(value: u8) -> (text: String)
    ensures
        text@ == revision_text(value),
{
    let major: u8 = value >> 4;
    let minor: u8 = value & 0x0f;
    assert(value >> 4 == value / 16) by (bit_vector);
    assert(value & 0x0f == value % 16) by (bit_vector);
    if 1 <= major && major <= 26 && minor <= 9 {
        let mut text = String::new();
        text.push((64 + major) as char);
        push_decimal(&mut text, minor as u128);
        assert(text@ =~= revision_text(value));
        text
    } else {
        let mut text = "unknown-".to_owned();
        push_hex_byte(&mut text, value);
        text
    }
}

/// Whether a descriptor is that of a normal Glasgow device.
pub open spec fn is_glasgow(descriptor: UsbDescriptorView) -> bool {
    descriptor.vendor_id == GLASGOW_VID && descriptor.product_id == GLASGOW_PID
}

/// What a Glasgow descriptor says of its device.
pub open spec fn described(descriptor: UsbDescriptorView) -> DeviceInfoView {
    DeviceInfoView {
        serial: descriptor.serial,
        vendor_id: GLASGOW_VID,
        product_id: GLASGOW_PID,
        revision: revision_text((descriptor.device_version % 256) as u8),
        api_level: (descriptor.device_version / 256) as u8,
        api_compatible: descriptor.device_version / 256 == API_LEVEL,
        path: descriptor.bus_id,
        native: descriptor.native,
    }
}

/// The Glasgow devices among the descriptors, in enumeration order.
pub open spec fn glasgows(found: Seq<UsbDescriptorView>) -> Seq<DeviceInfoView> {
    found.filter(|descriptor: UsbDescriptorView| is_glasgow(descriptor)).map_values(
        |descriptor: UsbDescriptorView| described(descriptor),
    )
}

impl Ordered for DeviceInfo {
    open spec fn key(view: DeviceInfoView) -> DeviceKey {
        device_key(view.serial, view.path)
    }

    fn precedes(&self, other: &Self) -> (before: bool) {
        key_precedes(
            borrow_text(&self.serial),
            &self.path,
            borrow_text(&other.serial),
            &other.path,
        )
    }

    fn coincides(&self, other: &Self) -> (same: bool) {
        keys_coincide(
            borrow_text(&self.serial),
            &self.path,
            borrow_text(&other.serial),
            &other.path,
        )
    }
}

/// Picks the Glasgow devices out of what enumeration found.
pub fn describe_glasgows(found: &Vec<UsbDescriptor>) -> (devices: Vec<DeviceInfo>)
    ensures
        devices.deep_view() == glasgows(found.deep_view()),
{
    let ghost views = found.deep_view();
    let mut devices: Vec<DeviceInfo> = Vec::new();
    let mut i: usize = 0;
    proof {
        reveal(Seq::filter);
        assert(devices.deep_view() =~= glasgows(views.take(0)));
    }
    while i < found.len()
        invariant
            i <= found@.len(),
            views == found.deep_view(),
            devices.deep_view() == glasgows(views.take(i as int)),
        decreases found@.len() - i,
    {
        let descriptor = &found[i];
        let ghost before = devices.deep_view();
        let ghost view = descriptor.deep_view();
        proof {
            reveal(Seq::filter);
            assert(views[i as int] == view);
            assert(views.take(i + 1).drop_last() =~= views.take(i as int));
            assert(views.take(i + 1).last() == view);
        }
        if descriptor.vendor_id == GLASGOW_VID && descriptor.product_id == GLASGOW_PID {
            let version = descriptor.device_version;
            let api_level: u8 = (version / 256) as u8;
            devices.push(
                DeviceInfo {
                    serial: copy_text(&descriptor.serial),
                    vendor_id: GLASGOW_VID,
                    product_id: GLASGOW_PID,
                    revision: decode_revision((version % 256) as u8),
                    api_level,
                    api_compatible: api_level == API_LEVEL,
                    path: descriptor.bus_id.clone(),
                    native: descriptor.native,
                },
            );
            assert(devices@.last().deep_view() == described(view));
            assert(devices.deep_view() =~= before.push(described(view)));
        }
        assert(devices.deep_view() =~= glasgows(views.take(i + 1)));
        i = i + 1;
    }
    assert(views.take(i as int) =~= views);
    devices
}

/// Lists normal Glasgow devices from what enumeration found, by serial number and path.
pub fn list_devices(found: Result<Vec<UsbDescriptor>, String>) -> (result: Result<
    Vec<DeviceInfo>,
    Error,
>)
    ensures
        match (found, result) {
            (Ok(found), Ok(devices)) => sorted_from::<DeviceInfo>(
                glasgows(found.deep_view()),
                devices.deep_view(),
            ),
            (Err(reason), Err(error)) => error.deep_view() == enumeration_error(reason@),
            _ => false,
        },
{
    match found {
        Ok(found) => Ok(sort_items(describe_glasgows(&found))),
        Err(reason) => Err(enumeration_failed(&reason)),
    }
}

impl Serialled for DeviceInfo {
    open spec fn serial(view: DeviceInfoView) -> Option<Seq<char>> {
        view.serial
    }

    fn has_serial(&self, serial: &str) -> (same: bool) {
        match &self.serial {
            Some(own) => same_text(own, serial),
            None => false,
        }
    }
}

/// The error for a request that no device meets.
pub open spec fn no_glasgow() -> ErrorView {
    error_view(Category::Selection, "no matching Glasgow was found"@)
}

/// The error for a request that several devices meet.
pub open spec fn several_glasgows() -> ErrorView {
    error_view(Category::Selection, "multiple Glasgow devices match; specify --serial"@)
}

/// The one device that has the requested serial number.
pub open spec fn selected(devices: Seq<DeviceInfoView>, requested: Option<Seq<char>>) -> Result<
    DeviceInfoView,
    ErrorView,
> {
    let found = matching::<DeviceInfo>(devices, requested);
    if found.len() == 0 {
        Err(no_glasgow())
    } else if found.len() == 1 {
        Ok(found[0])
    } else {
        Err(several_glasgows())
    }
}

/// A selection with the device and the error taken by their views.
pub open spec fn selection_view(result: Result<DeviceInfo, Error>) -> Result<
    DeviceInfoView,
    ErrorView,
> {
    match result {
        Ok(device) => Ok(device.deep_view()),
        Err(error) => Err(error.deep_view()),
    }
}

/// Selects the one device that has the requested serial number.
pub fn select_device(devices: &[DeviceInfo], serial: Option<&str>) -> (result: Result<
    DeviceInfo,
    Error,
>)
    ensures
        selection_view(result) == selected(devices.deep_view(), borrowed_view(serial)),
{
    match find_match(devices, serial) {
        Match::Missing => Err(Error::Selection("no matching Glasgow was found".to_owned())),
        Match::Single(at) => Ok(devices[at].clone()),
        Match::Several => Err(
            Error::Selection("multiple Glasgow devices match; specify --serial".to_owned()),
        ),
    }
}

/// Descriptor-only information about a Cypress recovery-mode device.
#[derive(Debug)]
pub struct RecoveryCandidate {
    /// USB vendor identifier.
    pub vendor_id: u16,
    /// USB product identifier.
    pub product_id: u16,
    /// Attachment path.
    pub path: String,
}

/// A recovery candidate with its path as a sequence of characters.
#[verifier::ext_equal]
pub struct RecoveryCandidateView {
    pub vendor_id: u16,
    pub product_id: u16,
    pub path: Seq<char>,
}

impl DeepView for RecoveryCandidate {
    type V = RecoveryCandidateView;

    open spec fn deep_view(&self) -> RecoveryCandidateView {
        RecoveryCandidateView {
            vendor_id: self.vendor_id,
            product_id: self.product_id,
            path: self.path@,
        }
    }
}

impl Ordered for RecoveryCandidate {
    open spec fn key(view: RecoveryCandidateView) -> DeviceKey {
        device_key(None, view.path)
    }

    fn precedes(&self, other: &Self) -> (before: bool) {
        key_precedes(None, &self.path, None, &other.path)
    }

    fn coincides(&self, other: &Self) -> (same: bool) {
        keys_coincide(None, &self.path, None, &other.path)
    }
}

/// Whether a descriptor is that of a device in recovery mode.
pub open spec fn is_recovery(descriptor: UsbDescriptorView) -> bool {
    descriptor.vendor_id == CYPRESS_VID && descriptor.product_id == CYPRESS_PID
}

/// The recovery-mode devices among the descriptors, in enumeration order.
pub open spec fn recoverable(found: Seq<UsbDescriptorView>) -> Seq<RecoveryCandidateView> {
    found.filter(|descriptor: UsbDescriptorView| is_recovery(descriptor)).map_values(
        |descriptor: UsbDescriptorView|
            RecoveryCandidateView {
                vendor_id: CYPRESS_VID,
                product_id: CYPRESS_PID,
                path: descriptor.bus_id,
            },
    )
}

/// Lists recovery-mode devices from what enumeration found, by path.
pub fn list_recovery_candidates(found: Result<Vec<UsbDescriptor>, String>) -> (result: Result<
    Vec<RecoveryCandidate>,
    Error,
>)
    ensures
        match (found, result) {
            (Ok(found), Ok(devices)) => sorted_from::<RecoveryCandidate>(
                recoverable(found.deep_view()),
                devices.deep_view(),
            ),
            (Err(reason), Err(error)) => error.deep_view() == enumeration_error(reason@),
            _ => false,
        },
{
    let found = match found {
        Ok(found) => found,
        Err(reason) => {
            return Err(enumeration_failed(&reason));
        },
    };
    let ghost views = found.deep_view();
    let mut devices: Vec<RecoveryCandidate> = Vec::new();
    let mut i: usize = 0;
    proof {
        reveal(Seq::filter);
        assert(devices.deep_view() =~= recoverable(views.take(0)));
    }
    while i < found.len()
        invariant
            i <= found@.len(),
            views == found.deep_view(),
            devices.deep_view() == recoverable(views.take(i as int)),
        decreases found@.len() - i,
    {
        let descriptor = &found[i];
        let ghost before = devices.deep_view();
        proof {
            reveal(Seq::filter);
            assert(views[i as int] == descriptor.deep_view());
            assert(views.take(i + 1).drop_last() =~= views.take(i as int));
            assert(views.take(i + 1).last() == descriptor.deep_view());
        }
        if descriptor.vendor_id == CYPRESS_VID && descriptor.product_id == CYPRESS_PID {
            devices.push(
                RecoveryCandidate {
                    vendor_id: descriptor.vendor_id,
                    product_id: descriptor.product_id,
                    path: descriptor.bus_id.clone(),
                },
            );
            assert(devices.deep_view() =~= before.push(devices@.last().deep_view()));
        }
        assert(devices.deep_view() =~= recoverable(views.take(i + 1)));
        i = i + 1;
    }
    assert(views.take(i as int) =~= views);
    Ok(sort_items(devices))
}

/// What is shown of a serial number, which a device may lack.
pub open spec fn shown_serial(serial: Option<Seq<char>>) -> Seq<char> {
    match serial {
        Some(serial) => serial,
        None => "<no serial>"@,
    }
}

/// The line that describes a device in a listing.
pub open spec fn listing_line(device: DeviceInfoView) -> Seq<char> {
    shown_serial(device.serial) + " "@ + device.path + " rev"@ + device.revision + " API "@
        + decimal(device.api_level as nat) + (if device.api_compatible {
        " (compatible)"@
    } else {
        " (firmware update required)"@
    })
}

impl DeviceInfo {
    /// The serial number, or what is shown in its place.
    pub fn shown_serial(&self) -> (text: &str)
        ensures
            text@ == shown_serial(self.deep_view().serial),
    {
        match &self.serial {
            Some(serial) => serial.as_str(),
            None => "<no serial>",
        }
    }

    /// The line that describes this device in a listing.
    pub fn listing(&self) -> (line: String)
        ensures
            line@ == listing_line(self.deep_view()),
    {
        let mut line = self.shown_serial().to_owned();
        line.append(" ");
        line.append(&self.path);
        line.append(" rev");
        line.append(&self.revision);
        line.append(" API ");
        push_decimal(&mut line, self.api_level as u128);
        if self.api_compatible {
            line.append(" (compatible)");
        } else {
            line.append(" (firmware update required)");
        }
        line
    }
}

}
