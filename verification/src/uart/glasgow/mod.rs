//! Glasgow UART discovery and opening.

use vstd::prelude::*;

use crate::cli::DEFAULT_BAUD;
use crate::error::Error;

pub mod device;
pub mod resources;

pub use device::{list_devices, list_recovery_candidates, DeviceInfo, RecoveryCandidate};

use crate::text::borrow_text;
use device::{select_device, selected, selection_view};

verus! {

/// Glasgow UART open parameters.
#[derive(Clone, Debug)]
pub struct OpenOptions {
    /// Select a Glasgow by USB serial number.
    pub serial: Option<String>,
    /// Requested line rate in bits per second.
    pub baud: u32,
}

impl Default for OpenOptions {
    fn default() -> (options: OpenOptions)
        ensures
            options.serial is None,
            options.baud == DEFAULT_BAUD,
    {
        OpenOptions { serial: None, baud: DEFAULT_BAUD }
    }
}

/// Begins to open a port: selects, among the listed devices, the one that is to be
/// provisioned.
pub fn open(devices: &[DeviceInfo], options: &OpenOptions) -> (result: Result<DeviceInfo, Error>)
    ensures
        selection_view(result) == selected(devices.deep_view(), options.serial.deep_view()),
{
    select_device(devices, borrow_text(&options.serial))
}

}
