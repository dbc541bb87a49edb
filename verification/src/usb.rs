//! USB descriptors as discovery hands them over.

use vstd::prelude::*;

use crate::error::{error_view, Category, Error, ErrorView};
use crate::text::joined;

verus! {

/// What enumeration reports of one attached USB device.
#[derive(Debug)]
pub struct UsbDescriptor {
    pub vendor_id: u16,
    pub product_id: u16,
    /// Device release number.
    pub device_version: u16,
    pub serial: Option<String>,
    pub product: Option<String>,
    /// Attachment path.
    pub bus_id: String,
    /// Position in the enumeration.
    pub native: usize,
}

/// A USB descriptor with its texts as sequences of characters.
#[verifier::ext_equal]
pub struct UsbDescriptorView {
    pub vendor_id: u16,
    pub product_id: u16,
    pub device_version: u16,
    pub serial: Option<Seq<char>>,
    pub product: Option<Seq<char>>,
    pub bus_id: Seq<char>,
    pub native: usize,
}

impl DeepView for UsbDescriptor {
    type V = UsbDescriptorView;

    open spec fn deep_view(&self) -> UsbDescriptorView {
        UsbDescriptorView {
            vendor_id: self.vendor_id,
            product_id: self.product_id,
            device_version: self.device_version,
            serial: self.serial.deep_view(),
            product: self.product.deep_view(),
            bus_id: self.bus_id@,
            native: self.native,
        }
    }
}

/// Which attached device a description belongs to.
#[derive(Clone, Copy, Debug, PartialEq, Eq, Structural)]
pub struct NativeDevice {
    pub vendor_id: u16,
    pub product_id: u16,
    /// Position in the enumeration.
    pub position: usize,
}

/// The error for a failed enumeration.
pub open spec fn enumeration_error(reason: Seq<char>) -> ErrorView {
    error_view(Category::Access, "cannot enumerate USB devices: "@ + reason)
}

/// The error for a failed enumeration.
pub fn enumeration_failed(reason: &str) -> (error: Error)
    ensures
        error.deep_view() == enumeration_error(reason@),
{
    Error::Access(joined("cannot enumerate USB devices: ", reason))
}

/// A copy of an optional text.
pub fn copy_text(text: &Option<String>) -> (copy: Option<String>)
    ensures
        copy.deep_view() == text.deep_view(),
{
    match text {
        Some(text) => Some(text.clone()),
        None => None,
    }
}

}
