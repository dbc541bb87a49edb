//! Explicit FT232H direct-USB UART backend of the command-line tool.

use vstd::prelude::*;

use crate::cli::AppError;
use crate::error::ErrorView;
use crate::events::Backend;
use crate::session::{TransportMetadata, TransportMetadataView};
use crate::cli::{MAXIMUM_BAUD, MINIMUM_BAUD};
use crate::uart::c232::ftdi::{
    carried, joined_packets, strip_ftdi_status_from, strip_result, stripping_keeps_the_payload,
    transferable,
};
use crate::uart::c232::line::{
    errors_in, line_errors_are_counted_as_they_appear, overruns_in, shows_empty,
};
use crate::uart::c232::opening::OpenedCable;
use crate::uart::c232::usb::UsbDeviceView;

pub use crate::uart::c232::ftdi::FtdiLineCounters;

verus! {

/// What stripping the status bytes of a transfer gives, on a line that was clear before.
pub open spec fn stripped(transfer: Seq<u8>, max_packet: int) -> Result<
    (Seq<u8>, FtdiLineCounters),
    ErrorView,
> {
    match strip_result(transfer, max_packet, Some(0)) {
        Ok((payload, counters, _)) => Ok((payload, counters)),
        Err(error) => Err(error),
    }
}

/// Strip the two FTDI status bytes from every USB packet, including short packets.
pub fn strip_ftdi_status(transfer: &[u8], max_packet: usize) -> (result: Result<
    (Vec<u8>, FtdiLineCounters),
    AppError,
>)
    ensures
        match (result, stripped(transfer@, max_packet as int)) {
            (Ok((payload, counters)), Ok((bytes, expected))) => payload@ == bytes && counters
                == expected,
            (Err(error), Err(expected)) => error.deep_view() == expected,
            _ => false,
        },
{
    match strip_ftdi_status_from(transfer, max_packet, Some(0)) {
        Ok((payload, counters, _)) => Ok((payload, counters)),
        Err(error) => Err(AppError::of(error)),
    }
}

/// What the tool knows of an opened cable.
pub open spec fn tool_metadata(
    device: UsbDeviceView,
    requested: u32,
    actual: u32,
) -> TransportMetadataView {
    TransportMetadataView {
        backend: Backend::Usb,
        serial: device.serial,
        path: Some(device.path),
        requested_baud: requested,
        actual_baud: actual,
        minimum_baud: MINIMUM_BAUD,
        maximum_baud: MAXIMUM_BAUD,
    }
}

/// What the tool knows of an opened cable.
pub fn transport_metadata(opened: &OpenedCable) -> (metadata: TransportMetadata)
    ensures
        metadata.deep_view() == tool_metadata(
            opened.device.deep_view(),
            opened.requested_baud,
            opened.actual_baud,
        ),
{
    TransportMetadata {
        backend: Backend::Usb,
        serial: opened.device.serial.clone(),
        path: Some(opened.device.path.clone()),
        requested_baud: opened.requested_baud,
        actual_baud: opened.actual_baud,
        minimum_baud: MINIMUM_BAUD,
        maximum_baud: MAXIMUM_BAUD,
    }
}

/// A transfer on its own is stripped as one that follows a line without errors: its payload is what
/// its packets carry, and an error that its first packet shows counts.
pub proof fn lone_transfers_follow_a_clean_line(packets: Seq<Seq<u8>>, max_packet: int)
    requires
        max_packet >= 2,
        transferable(packets, max_packet),
    ensures
        stripped(joined_packets(packets), max_packet) matches Ok((payload, counters)) && {
            &&& payload == carried(packets)
            &&& counters.errors == errors_in(packets, Some(0), packets.len()) as u64
            &&& counters.overflow == overruns_in(packets, Some(0), packets.len()) as u64
            &&& packets.len() > 0 ==> counters.transmitter_empty == shows_empty(
                packets.last()[1],
            )
        },
{
    stripping_keeps_the_payload(packets, max_packet, Some(0));
    line_errors_are_counted_as_they_appear(packets, max_packet, Some(0));
}

}
