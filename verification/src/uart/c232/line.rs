//! What the status bytes of a cable say.

use vstd::prelude::*;

use crate::error::{Category, ErrorView};

use super::ftdi::{
    joined_packets, lemma_first_packet, newly_set, receive, receive_pending, strip, strip_result,
    transferable, UsbReceiverView, LINE_ERRORS, LINE_OE,
};
use super::usb::reported_empty;

verus! {

/// Whether a line status shows an overrun.
pub open spec fn shows_overrun(line: u8) -> bool {
    line as int / 2 % 2 == 1
}

/// Whether a line status shows a parity error.
pub open spec fn shows_parity_error(line: u8) -> bool {
    line as int / 4 % 2 == 1
}

/// Whether a line status shows a framing error.
pub open spec fn shows_framing_error(line: u8) -> bool {
    line as int / 8 % 2 == 1
}

/// Whether a line status shows a break.
pub open spec fn shows_break(line: u8) -> bool {
    line as int / 16 % 2 == 1
}

/// Whether a line status shows an empty transmitter.
pub open spec fn shows_empty(line: u8) -> bool {
    line as int / 64 % 2 == 1
}

/// Whether a receive error appears that the status before did not show. Without one before it,
/// nothing appears.
pub open spec fn error_appears(previous: Option<u8>, line: u8) -> bool {
    previous matches Some(before) && {
        ||| shows_parity_error(line) && !shows_parity_error(before)
        ||| shows_framing_error(line) && !shows_framing_error(before)
        ||| shows_break(line) && !shows_break(before)
    }
}

/// Whether an overrun appears that the status before did not show.
pub open spec fn overrun_appears(previous: Option<u8>, line: u8) -> bool {
    previous matches Some(before) && shows_overrun(line) && !shows_overrun(before)
}

proof fn lemma_appears(previous: Option<u8>, line: u8)
    ensures
        newly_set(previous, line, LINE_ERRORS) == error_appears(previous, line),
        newly_set(previous, line, LINE_OE) == overrun_appears(previous, line),
{
    if let Some(before) = previous {
        assert((line & !before & 0x1c != 0) == ((line / 4 % 2 == 1 && before / 4 % 2 != 1) || (line
            / 8 % 2 == 1 && before / 8 % 2 != 1) || (line / 16 % 2 == 1 && before / 16 % 2 != 1)))
            by (bit_vector);
        assert((line & !before & 0x02 != 0) == (line / 2 % 2 == 1 && before / 2 % 2 != 1))
            by (bit_vector);
    }
}

/// The line status before a packet.
pub open spec fn status_before(packets: Seq<Seq<u8>>, previous: Option<u8>, i: int) -> Option<u8> {
    if i <= 0 {
        previous
    } else {
        Some(packets[i - 1][1])
    }
}

/// How many of the first `count` packets show a receive error that the one before did not.
pub open spec fn errors_in(packets: Seq<Seq<u8>>, previous: Option<u8>, count: nat) -> nat
    decreases count,
{
    if count == 0 {
        0
    } else {
        let last = count - 1;
        errors_in(packets, previous, last as nat) + if error_appears(
            status_before(packets, previous, last),
            packets[last][1],
        ) {
            1nat
        } else {
            0
        }
    }
}

/// How many of the first `count` packets show an overrun that the one before did not.
pub open spec fn overruns_in(packets: Seq<Seq<u8>>, previous: Option<u8>, count: nat) -> nat
    decreases count,
{
    if count == 0 {
        0
    } else {
        let last = count - 1;
        overruns_in(packets, previous, last as nat) + if overrun_appears(
            status_before(packets, previous, last),
            packets[last][1],
        ) {
            1nat
        } else {
            0
        }
    }
}

/// Counting may start behind the first packet, with its status as the one before.
proof fn lemma_counts(packets: Seq<Seq<u8>>, previous: Option<u8>, count: nat)
    requires
        0 < count <= packets.len(),
    ensures
        ({
            let rest = packets.drop_first();
            let carried = Some(packets[0][1]);
            let fewer = (count - 1) as nat;
            &&& errors_in(packets, previous, count) == errors_in(rest, carried, fewer) + (
            if error_appears(previous, packets[0][1]) {
                1nat
            } else {
                0
            })
            &&& overruns_in(packets, previous, count) == overruns_in(rest, carried, fewer) + (
            if overrun_appears(previous, packets[0][1]) {
                1nat
            } else {
                0
            })
        }),
    decreases count,
{
    if count == 1 {
        assert(errors_in(packets, previous, 0) == 0);
        assert(overruns_in(packets, previous, 0) == 0);
    } else {
        let rest = packets.drop_first();
        let carried = Some(packets[0][1]);
        lemma_counts(packets, previous, (count - 1) as nat);
        let last = count - 1;
        assert(rest[last - 1] == packets[last]);
        assert(status_before(rest, carried, last - 1) == status_before(packets, previous, last)) by {
            if last >= 2 {
                assert(rest[last - 2] == packets[last - 1]);
            }
        }
    }
}

/// Line errors are counted where they appear: a transfer counts the packets whose status shows a
/// parity error, a framing error or a break, and those whose status shows an overrun, that the
/// status before did not show; and it ends with the status of its last packet, which says whether
/// the transmitter is empty.
pub proof fn line_errors_are_counted_as_they_appear(
    packets: Seq<Seq<u8>>,
    max_packet: int,
    previous: Option<u8>,
)
    requires
        max_packet >= 2,
        transferable(packets, max_packet),
    ensures
        strip(joined_packets(packets), max_packet, previous) matches Some(stripped) && {
            &&& stripped.errors == errors_in(packets, previous, packets.len())
            &&& stripped.overflow == overruns_in(packets, previous, packets.len())
            &&& stripped.line == status_before(packets, previous, packets.len() as int)
        },
        packets.len() > 0 ==> (strip_result(
            joined_packets(packets),
            max_packet,
            previous,
        ) matches Ok((_, counters, line)) && {
            &&& counters.transmitter_empty == shows_empty(packets.last()[1])
            &&& line == Some(packets.last()[1])
        }),
    decreases packets.len(),
{
    if packets.len() > 0 {
        let rest = packets.drop_first();
        let carried = Some(packets[0][1]);
        lemma_first_packet(packets, max_packet);
        line_errors_are_counted_as_they_appear(rest, max_packet, carried);
        lemma_counts(packets, previous, packets.len());
        lemma_appears(previous, packets[0][1]);
        if rest.len() > 0 {
            assert(rest[rest.len() - 1] == packets[packets.len() - 1]);
        }
        let line = packets.last()[1];
        assert((line & 0x40 != 0) == (line / 64 % 2 == 1)) by (bit_vector);
        assert(joined_packets(packets).len() > 0);
    }
}

/// A transfer is well formed unless a packet of it is cut off inside its two status bytes, which
/// only the last one can be; any other is refused as a protocol error, and so is a packet size
/// that has no room for them.
pub proof fn only_cut_packets_are_refused(
    transfer: Seq<u8>,
    max_packet: int,
    previous: Option<u8>,
)
    ensures
        max_packet >= 2 ==> (strip_result(transfer, max_packet, previous) is Ok
            <==> transfer.len() as int % max_packet != 1),
        max_packet < 2 ==> strip_result(transfer, max_packet, previous) is Err,
        strip_result(transfer, max_packet, previous) matches Err(error) ==> error.category
            == Category::Protocol,
{
    if max_packet >= 2 {
        lemma_cut(transfer, max_packet, previous);
    }
}

proof fn lemma_cut(transfer: Seq<u8>, max_packet: int, previous: Option<u8>)
    requires
        max_packet >= 2,
    ensures
        strip(transfer, max_packet, previous) is Some <==> transfer.len() as int % max_packet != 1,
    decreases transfer.len(),
{
    if transfer.len() == 0 {
        vstd::arithmetic::div_mod::lemma_small_mod(0, max_packet as nat);
    } else if transfer.len() < max_packet {
        vstd::arithmetic::div_mod::lemma_small_mod(transfer.len(), max_packet as nat);
        let rest = transfer.skip(transfer.len() as int);
        assert(strip(rest, max_packet, Some(transfer[1])) is Some);
    } else {
        let rest = transfer.skip(max_packet);
        vstd::arithmetic::div_mod::lemma_mod_sub_multiples_vanish(
            transfer.len() as int,
            max_packet,
        );
        assert(transfer.take(max_packet).len() == max_packet);
        let packet = if transfer.len() <= max_packet {
            transfer
        } else {
            transfer.take(max_packet)
        };
        assert(packet.len() == max_packet);
        assert(rest.len() == -max_packet + transfer.len());
        lemma_cut(rest, max_packet, Some(packet[1]));
    }
}

/// A transfer is taken whole: what fits the read is delivered and the rest is kept for later,
/// behind what was kept before. A transfer that failed is told with its reason, after its bytes,
/// and counts nothing; a well-formed one adds what its packets count; and one that carried nothing
/// is no failure for good.
pub proof fn transfers_are_taken_whole(
    receiver: UsbReceiverView,
    capacity: usize,
    transfer: Seq<u8>,
    reason: Seq<char>,
)
    ensures
        ({
            let (failed, lost, told) = receive(receiver, capacity, transfer, Some(reason));
            let (after, bytes, outcome) = receive(receiver, capacity, transfer, None);
            match strip_result(transfer, receiver.max_packet as int, receiver.last_line) {
                Err(error) => {
                    &&& after == receiver && failed == receiver
                    &&& bytes.len() == 0 && lost.len() == 0
                    &&& outcome.completed == 0 && told == outcome
                    &&& outcome.failure matches Some(failure) && failure.kind is Protocol
                        && failure.message == error.message
                },
                Ok((payload, counters, line)) => {
                    &&& bytes.len() <= capacity
                    &&& bytes.len() < capacity ==> bytes.len() == payload.len()
                    &&& bytes.is_prefix_of(payload)
                    &&& after.pending == receiver.pending + payload.skip(bytes.len() as int)
                    &&& after.last_line == line && after.max_packet == receiver.max_packet
                    &&& after.totals.rx_errors == (receiver.totals.rx_errors + counters.errors)
                        % 0x1_0000_0000_0000_0000
                    &&& after.totals.rx_overflow == (receiver.totals.rx_overflow
                        + counters.overflow) % 0x1_0000_0000_0000_0000
                    &&& outcome.completed == bytes.len()
                    &&& bytes.len() > 0 ==> outcome.failure is None
                    &&& bytes.len() == 0 ==> (outcome.failure matches Some(failure) && failure.kind
                        is WouldBlock)
                    &&& lost == bytes && told.completed == bytes.len()
                    &&& failed.pending == after.pending && failed.last_line == line
                    &&& failed.totals == receiver.totals
                    &&& told.failure matches Some(failure) && failure.kind is Access
                        && failure.message.len() >= reason.len() && failure.message.skip(
                        failure.message.len() - reason.len(),
                    ) == reason
                },
            }
        }),
{
    let message = "FTDI USB read failed: "@ + reason;
    assert(message.skip(message.len() - reason.len()) =~= reason);
}

/// What was kept for later is delivered first come, first served, and nothing else of the receiver
/// changes.
pub proof fn kept_bytes_are_delivered_in_order(receiver: UsbReceiverView, capacity: usize)
    ensures
        ({
            let (after, bytes, outcome) = receive_pending(receiver, capacity);
            &&& bytes + after.pending == receiver.pending
            &&& bytes.len() <= capacity
            &&& bytes.len() < capacity ==> after.pending.len() == 0
            &&& outcome.completed == bytes.len()
            &&& bytes.len() > 0 ==> outcome.failure is None
            &&& after.totals == receiver.totals && after.last_line == receiver.last_line
                && after.max_packet == receiver.max_packet
        }),
{
}

/// A modem status is two bytes, of which the second says whether the transmitter is empty.
pub proof fn modem_statuses_tell_the_transmitter(bytes: Seq<u8>, reason: Seq<char>)
    ensures
        bytes.len() == 2 ==> reported_empty(Ok(bytes)) == Ok::<bool, ErrorView>(
            shows_empty(bytes[1]),
        ),
        bytes.len() != 2 ==> (reported_empty(Ok(bytes)) matches Err(error) && error.category
            == Category::Protocol),
        reported_empty(Err(reason)) matches Err(error) && error.category == Category::Access,
{
    if bytes.len() == 2 {
        let line = bytes[1];
        assert((line & 0x40 != 0) == (line / 64 % 2 == 1)) by (bit_vector);
    }
}

}
