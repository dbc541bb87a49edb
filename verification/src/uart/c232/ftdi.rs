//! FT232H framing: status bytes of received packets, and control requests.

use std::collections::VecDeque;

use vstd::prelude::*;
use vstd::string::*;

use crate::error::{error_view, Category, Error, ErrorView};
use crate::events::HardwareCounters;
use crate::text::joined;
use crate::uart::transport::{
    completed_outcome, failed_outcome, IoError, IoErrorKind, IoErrorView, OutcomeView,
    TransferFailureKind, TransferOutcome,
};

verus! {

broadcast use vstd::string::group_string_axioms;

/// Overrun error in the line status.
pub const LINE_OE: u8 = 0x02;

/// Parity error, framing error or break in the line status.
pub const LINE_ERRORS: u8 = 0x1c;

/// Transmitter empty in the line status.
pub const LINE_TEMT: u8 = 0x40;

/// What the status bytes of some packets say of the line.
#[derive(Clone, Copy, Debug, PartialEq, Eq, Structural)]
pub struct FtdiLineCounters {
    pub errors: u64,
    pub overflow: u64,
    pub transmitter_empty: bool,
}

impl Default for FtdiLineCounters {
    fn default() -> (counters: FtdiLineCounters)
        ensures
            counters == (FtdiLineCounters { errors: 0, overflow: 0, transmitter_empty: false }),
    {
        FtdiLineCounters { errors: 0, overflow: 0, transmitter_empty: false }
    }
}

/// The first packet of a transfer: as many bytes as a packet holds, or all there are.
pub open spec fn first_packet(transfer: Seq<u8>, max_packet: int) -> Seq<u8> {
    if transfer.len() <= max_packet {
        transfer
    } else {
        transfer.take(max_packet)
    }
}

/// Whether a line status sets bits of `mask` that the one before it did not. Without one
/// before it, nothing is known to be new.
pub open spec fn newly_set(previous: Option<u8>, line: u8, mask: u8) -> bool {
    match previous {
        Some(previous) => line & !previous & mask != 0,
        None => false,
    }
}

/// Whether a line status sets a bit.
pub open spec fn is_set(line: u8, mask: u8) -> bool {
    line & mask != 0
}

/// What a transfer holds behind its status bytes.
#[verifier::ext_equal]
pub struct Stripped {
    /// The bytes behind the status bytes of each packet.
    pub payload: Seq<u8>,
    /// How many packets report a new receive error.
    pub errors: nat,
    /// How many packets report a new overrun.
    pub overflow: nat,
    /// The last line status.
    pub line: Option<u8>,
}

/// What a transfer holds, packet by packet; nothing where a packet ends inside its status
/// bytes.
pub open spec fn strip(transfer: Seq<u8>, max_packet: int, previous: Option<u8>) -> Option<Stripped>
    decreases transfer.len(),
{
    if transfer.len() == 0 {
        Some(Stripped { payload: Seq::empty(), errors: 0, overflow: 0, line: previous })
    } else {
        let packet = first_packet(transfer, max_packet);
        if packet.len() < 2 || max_packet < 2 {
            None
        } else {
            match strip(transfer.skip(packet.len() as int), max_packet, Some(packet[1])) {
                None => None,
                Some(rest) => Some(
                    Stripped {
                        payload: packet.skip(2) + rest.payload,
                        errors: rest.errors + (if newly_set(previous, packet[1], LINE_ERRORS) {
                            1nat
                        } else {
                            0
                        }),
                        overflow: rest.overflow + (if newly_set(previous, packet[1], LINE_OE) {
                            1nat
                        } else {
                            0
                        }),
                        line: rest.line,
                    },
                ),
            }
        }
    }
}

/// The line counters of a stripped transfer. An empty transfer says nothing of the
/// transmitter.
pub open spec fn line_counters(transfer: Seq<u8>, stripped: Stripped) -> FtdiLineCounters {
    FtdiLineCounters {
        errors: stripped.errors as u64,
        overflow: stripped.overflow as u64,
        transmitter_empty: transfer.len() > 0 && (stripped.line matches Some(line) && is_set(
            line,
            LINE_TEMT,
        )),
    }
}

/// What stripping a transfer gives: payload, counters and last line status, or an error.
pub open spec fn strip_result(
    transfer: Seq<u8>,
    max_packet: int,
    previous: Option<u8>,
) -> Result<(Seq<u8>, FtdiLineCounters, Option<u8>), ErrorView> {
    if max_packet < 2 {
        Err(
            error_view(
                Category::Protocol,
                "FTDI endpoint max-packet size is smaller than its status header"@,
            ),
        )
    } else {
        match strip(transfer, max_packet, previous) {
            None => Err(
                error_view(
                    Category::Protocol,
                    "FTDI USB packet ended inside its status header"@,
                ),
            ),
            Some(stripped) => Ok(
                (stripped.payload, line_counters(transfer, stripped), stripped.line),
            ),
        }
    }
}

/// A strip result taken by its views.
pub open spec fn strip_view(
    result: Result<(Vec<u8>, FtdiLineCounters, Option<u8>), Error>,
) -> Result<(Seq<u8>, FtdiLineCounters, Option<u8>), ErrorView> {
    match result {
        Ok((payload, counters, line)) => Ok((payload@, counters, line)),
        Err(error) => Err(error.deep_view()),
    }
}

/// Whether `whole` is what was stripped so far and then `rest`.
spec fn continues(
    whole: Option<Stripped>,
    payload: Seq<u8>,
    errors: nat,
    overflow: nat,
    rest: Option<Stripped>,
) -> bool {
    match rest {
        None => whole is None,
        Some(rest) => whole == Some(
            Stripped {
                payload: payload + rest.payload,
                errors: errors + rest.errors,
                overflow: overflow + rest.overflow,
                line: rest.line,
            },
        ),
    }
}

/// One more packet.
proof fn lemma_packet(
    whole: Option<Stripped>,
    payload: Seq<u8>,
    counters: FtdiLineCounters,
    transfer: Seq<u8>,
    max_packet: int,
    previous: Option<u8>,
)
    requires
        max_packet >= 2,
        transfer.len() > 0,
        continues(
            whole,
            payload,
            counters.errors as nat,
            counters.overflow as nat,
            strip(transfer, max_packet, previous),
        ),
    ensures
        ({
            let packet = first_packet(transfer, max_packet);
            if packet.len() < 2 {
                whole is None
            } else {
                continues(
                    whole,
                    payload + packet.skip(2),
                    (counters.errors + count_of(previous, packet[1], LINE_ERRORS)) as nat,
                    (counters.overflow + count_of(previous, packet[1], LINE_OE)) as nat,
                    strip(transfer.skip(packet.len() as int), max_packet, Some(packet[1])),
                )
            }
        }),
{
    let packet = first_packet(transfer, max_packet);
    if packet.len() >= 2 {
        match strip(transfer.skip(packet.len() as int), max_packet, Some(packet[1])) {
            None => {},
            Some(rest) => {
                assert(payload + (packet.skip(2) + rest.payload) =~= payload + packet.skip(2)
                    + rest.payload);
            },
        }
    }
}

/// One where a line status newly sets bits of `mask`, else none.
spec fn count_of(previous: Option<u8>, line: u8, mask: u8) -> int {
    if newly_set(previous, line, mask) {
        1
    } else {
        0
    }
}

/// Counts what a line status reports.
fn note_line(counters: FtdiLineCounters, previous: Option<u8>, line: u8) -> (noted:
    FtdiLineCounters)
    requires
        counters.errors < u64::MAX,
        counters.overflow < u64::MAX,
    ensures
        noted.errors == counters.errors + count_of(previous, line, LINE_ERRORS),
        noted.overflow == counters.overflow + count_of(previous, line, LINE_OE),
        noted.transmitter_empty == is_set(line, LINE_TEMT),
{
    let mut errors = counters.errors;
    let mut overflow = counters.overflow;
    if let Some(previous) = previous {
        let asserted: u8 = line & !previous;
        if asserted & LINE_OE != 0 {
            overflow = overflow + 1;
        }
        if asserted & LINE_ERRORS != 0 {
            errors = errors + 1;
        }
    }
    FtdiLineCounters { errors, overflow, transmitter_empty: line & LINE_TEMT != 0 }
}

/// Strips the two status bytes from every USB packet, including short packets, counting what
/// is new against the line status before them.
pub fn strip_ftdi_status_from(transfer: &[u8], max_packet: usize, previous_line: Option<u8>) -> (
    result: Result<(Vec<u8>, FtdiLineCounters, Option<u8>), Error>)
    ensures
        strip_view(result) == strip_result(transfer@, max_packet as int, previous_line),
{
    if max_packet < 2 {
        return Err(
            Error::Protocol(
                "FTDI endpoint max-packet size is smaller than its status header".to_owned(),
            ),
        );
    }
    let mut payload: Vec<u8> = Vec::new();
    let mut counters = FtdiLineCounters::default();
    let mut line: Option<u8> = previous_line;
    let mut at: usize = 0;
    let ghost whole = strip(transfer@, max_packet as int, previous_line);
    proof {
        assert(transfer@.skip(0) =~= transfer@);
        if whole is Some {
            assert(payload@ + (whole->0).payload =~= (whole->0).payload);
        }
    }
    while at < transfer.len()
        invariant
            max_packet >= 2,
            at <= transfer@.len(),
            counters.errors <= at,
            counters.overflow <= at,
            whole == strip(transfer@, max_packet as int, previous_line),
            at == 0 ==> line == previous_line && !counters.transmitter_empty,
            at > 0 ==> (line matches Some(status) && counters.transmitter_empty == is_set(
                status,
                LINE_TEMT,
            )),
            continues(
                whole,
                payload@,
                counters.errors as nat,
                counters.overflow as nat,
                strip(transfer@.skip(at as int), max_packet as int, line),
            ),
        decreases transfer@.len() - at,
    {
        let end: usize = if transfer.len() - at > max_packet {
            at + max_packet
        } else {
            transfer.len()
        };
        proof {
            let remaining = transfer@.skip(at as int);
            let packet = first_packet(remaining, max_packet as int);
            lemma_packet(whole, payload@, counters, remaining, max_packet as int, line);
            assert(packet =~= transfer@.subrange(at as int, end as int));
            assert(remaining.skip(packet.len() as int) =~= transfer@.skip(end as int));
            if end - at >= 2 {
                assert(packet[1] == transfer@[at + 1]);
                assert(packet.skip(2) =~= transfer@.subrange(at + 2, end as int));
            }
        }
        if end - at < 2 {
            return Err(
                Error::Protocol("FTDI USB packet ended inside its status header".to_owned()),
            );
        }
        let status = transfer[at + 1];
        let ghost before = payload@;
        counters = note_line(counters, line, status);
        line = Some(status);
        payload.extend_from_slice(vstd::slice::slice_subrange(transfer, at + 2, end));
        assert(payload@ =~= before + transfer@.subrange(at + 2, end as int));
        at = end;
    }
    assert(transfer@.skip(at as int) =~= Seq::empty());
    assert(payload@ + Seq::<u8>::empty() =~= payload@);
    Ok((payload, counters, line))
}

/// The packets of a transfer, one behind the other.
pub open spec fn joined_packets(packets: Seq<Seq<u8>>) -> Seq<u8>
    decreases packets.len(),
{
    if packets.len() == 0 {
        Seq::empty()
    } else {
        packets[0] + joined_packets(packets.drop_first())
    }
}

/// What the packets carry behind their status bytes, one behind the other.
pub open spec fn carried(packets: Seq<Seq<u8>>) -> Seq<u8>
    decreases packets.len(),
{
    if packets.len() == 0 {
        Seq::empty()
    } else {
        packets[0].skip(2) + carried(packets.drop_first())
    }
}

/// Whether packets can stand in one transfer: all are full but the last, which is whole.
pub open spec fn transferable(packets: Seq<Seq<u8>>, max_packet: int) -> bool {
    forall|i: int|
        0 <= i < packets.len() ==> 2 <= (#[trigger] packets[i]).len() <= max_packet && (i
            < packets.len() - 1 ==> packets[i].len() == max_packet)
}

/// The first packet of a transfer is the first of its packets.
pub proof fn lemma_first_packet(packets: Seq<Seq<u8>>, max_packet: int)
    requires
        max_packet >= 2,
        packets.len() > 0,
        transferable(packets, max_packet),
    ensures
        first_packet(joined_packets(packets), max_packet) == packets[0],
        joined_packets(packets).len() > 0,
        2 <= packets[0].len() <= max_packet,
        joined_packets(packets).skip(packets[0].len() as int) == joined_packets(
            packets.drop_first(),
        ),
        transferable(packets.drop_first(), max_packet),
{
    let transfer = joined_packets(packets);
    let rest = packets.drop_first();
    assert forall|i: int| 0 <= i < rest.len() implies 2 <= (#[trigger] rest[i]).len()
        <= max_packet && (i < rest.len() - 1 ==> rest[i].len() == max_packet) by {
        assert(rest[i] == packets[i + 1]);
    }
    assert(packets[0].len() <= max_packet);
    if rest.len() == 0 {
        assert(joined_packets(rest) =~= Seq::empty());
        assert(transfer =~= packets[0]);
    } else {
        assert(packets[0].len() == max_packet);
        assert(rest[0].len() >= 2);
        assert(transfer.take(max_packet) =~= packets[0]);
    }
    assert(transfer.skip(packets[0].len() as int) =~= joined_packets(rest));
}

/// Stripping a transfer gives exactly what its packets carry, short packets included, and
/// whatever the line status was before.
pub proof fn stripping_keeps_the_payload(
    packets: Seq<Seq<u8>>,
    max_packet: int,
    previous: Option<u8>,
)
    requires
        max_packet >= 2,
        transferable(packets, max_packet),
    ensures
        strip(joined_packets(packets), max_packet, previous) matches Some(stripped)
            && stripped.payload == carried(packets),
    decreases packets.len(),
{
    if packets.len() > 0 {
        lemma_first_packet(packets, max_packet);
        stripping_keeps_the_payload(packets.drop_first(), max_packet, Some(packets[0][1]));
    }
}

/// A line error that stays set is counted once, when it appears: however many packets report
/// the same line status, only the first one can report anything new.
pub proof fn standing_errors_are_counted_once(
    packets: Seq<Seq<u8>>,
    max_packet: int,
    previous: Option<u8>,
    line: u8,
)
    requires
        max_packet >= 2,
        packets.len() > 0,
        transferable(packets, max_packet),
        forall|i: int| 0 <= i < packets.len() ==> (#[trigger] packets[i])[1] == line,
    ensures
        strip(joined_packets(packets), max_packet, previous) matches Some(stripped) && {
            &&& stripped.errors == (if newly_set(previous, line, LINE_ERRORS) {
                1nat
            } else {
                0
            })
            &&& stripped.overflow == (if newly_set(previous, line, LINE_OE) {
                1nat
            } else {
                0
            })
            &&& stripped.line == Some(line)
        },
    decreases packets.len(),
{
    let rest = packets.drop_first();
    lemma_first_packet(packets, max_packet);
    assert(packets[0][1] == line);
    if rest.len() > 0 {
        assert forall|i: int| 0 <= i < rest.len() implies (#[trigger] rest[i])[1] == line by {
            assert(rest[i] == packets[i + 1]);
        }
        standing_errors_are_counted_once(rest, max_packet, Some(line), line);
        let errors = LINE_ERRORS;
        let overrun = LINE_OE;
        assert(line & !line & errors == 0) by (bit_vector);
        assert(line & !line & overrun == 0) by (bit_vector);
    } else {
        assert(strip(joined_packets(rest), max_packet, Some(line)) == Some(
            Stripped { payload: Seq::empty(), errors: 0, overflow: 0, line: Some(line) },
        ));
    }
}

/// What two transfers hold together, the second stripped with the line status that the first
/// left.
pub open spec fn stripped_together(first: Option<Stripped>, second: Option<Stripped>) -> Option<
    Stripped,
> {
    match (first, second) {
        (Some(first), Some(second)) => Some(
            Stripped {
                payload: first.payload + second.payload,
                errors: first.errors + second.errors,
                overflow: first.overflow + second.overflow,
                line: second.line,
            },
        ),
        _ => None,
    }
}

/// How packets are divided into transfers does not matter: stripping a transfer of full packets
/// and then another one, with the line status carried over, gives what stripping both at once
/// gives.
pub proof fn stripping_is_continuous(
    first: Seq<u8>,
    second: Seq<u8>,
    max_packet: int,
    previous: Option<u8>,
)
    requires
        max_packet >= 2,
        first.len() as int % max_packet == 0,
    ensures
        strip(first, max_packet, previous) matches Some(stripped) && strip(
            first + second,
            max_packet,
            previous,
        ) == stripped_together(Some(stripped), strip(second, max_packet, stripped.line)),
    decreases first.len(),
{
    let whole = first + second;
    if first.len() == 0 {
        assert(whole =~= second);
        if strip(second, max_packet, previous) is Some {
            let stripped = strip(second, max_packet, previous)->0;
            assert(Seq::<u8>::empty() + stripped.payload =~= stripped.payload);
        }
    } else {
        if first.len() < max_packet {
            vstd::arithmetic::div_mod::lemma_small_mod(first.len(), max_packet as nat);
        }
        vstd::arithmetic::div_mod::lemma_mod_sub_multiples_vanish(
            first.len() as int,
            max_packet,
        );
        let rest = first.skip(max_packet);
        let packet = first.take(max_packet);
        assert(first_packet(first, max_packet) =~= packet);
        assert(first_packet(whole, max_packet) =~= packet);
        assert(whole.skip(max_packet) =~= rest + second);
        stripping_is_continuous(rest, second, max_packet, Some(packet[1]));
        let later = strip(rest, max_packet, Some(packet[1]))->0;
        if strip(second, max_packet, later.line) is Some {
            let last = strip(second, max_packet, later.line)->0;
            assert(packet.skip(2) + (later.payload + last.payload) =~= (packet.skip(2)
                + later.payload) + last.payload);
        }
    }
}

/// The receive side of a direct USB connection.
#[derive(Debug)]
pub struct UsbReceiver {
    pending: VecDeque<u8>,
    max_packet: usize,
    last_line: Option<u8>,
    totals: HardwareCounters,
}

/// The receive side of a direct USB connection, by views.
#[verifier::ext_equal]
pub struct UsbReceiverView {
    /// Received bytes that are not delivered yet.
    pub pending: Seq<u8>,
    pub max_packet: usize,
    pub last_line: Option<u8>,
    pub totals: HardwareCounters,
}

impl DeepView for UsbReceiver {
    type V = UsbReceiverView;

    closed spec fn deep_view(&self) -> UsbReceiverView {
        UsbReceiverView {
            pending: self.pending@,
            max_packet: self.max_packet,
            last_line: self.last_line,
            totals: self.totals,
        }
    }
}

/// The smaller of a capacity and a length.
pub open spec fn at_most(capacity: usize, length: nat) -> int {
    if capacity <= length {
        capacity as int
    } else {
        length as int
    }
}

/// The counters with those of some packets added; a counter that overflows starts over.
pub open spec fn added(totals: HardwareCounters, counters: FtdiLineCounters) -> HardwareCounters {
    HardwareCounters {
        rx_errors: ((totals.rx_errors + counters.errors) % 0x1_0000_0000_0000_0000) as u64,
        rx_overflow: ((totals.rx_overflow + counters.overflow) % 0x1_0000_0000_0000_0000) as u64,
    }
}

/// The outcome of a read of `count` bytes whose packets reported no failure.
pub open spec fn delivered_outcome(count: int) -> OutcomeView {
    if count == 0 {
        failed_outcome(0, TransferFailureKind::WouldBlock, "FTDI USB status-only packet"@)
    } else {
        completed_outcome(count as usize)
    }
}

/// What a completed transfer does to the receiver, what it delivers, and how the read ends.
pub open spec fn receive(
    receiver: UsbReceiverView,
    capacity: usize,
    transfer: Seq<u8>,
    failure: Option<Seq<char>>,
) -> (UsbReceiverView, Seq<u8>, OutcomeView) {
    match strip_result(transfer, receiver.max_packet as int, receiver.last_line) {
        Err(error) => (
            receiver,
            Seq::empty(),
            failed_outcome(0, TransferFailureKind::Protocol, error.message),
        ),
        Ok((payload, counters, line)) => {
            let count = at_most(capacity, payload.len());
            let after = UsbReceiverView {
                pending: receiver.pending + payload.skip(count),
                last_line: line,
                ..receiver
            };
            match failure {
                Some(reason) => (
                    after,
                    payload.take(count),
                    failed_outcome(
                        count as usize,
                        TransferFailureKind::Access,
                        "FTDI USB read failed: "@ + reason,
                    ),
                ),
                None => (
                    UsbReceiverView { totals: added(after.totals, counters), ..after },
                    payload.take(count),
                    delivered_outcome(count),
                ),
            }
        },
    }
}

/// What a read of bytes that were received before does to the receiver, what it delivers, and
/// how it ends.
pub open spec fn receive_pending(receiver: UsbReceiverView, capacity: usize) -> (
    UsbReceiverView,
    Seq<u8>,
    OutcomeView,
) {
    let count = at_most(capacity, receiver.pending.len());
    (
        UsbReceiverView { pending: receiver.pending.skip(count), ..receiver },
        receiver.pending.take(count),
        delivered_outcome(count),
    )
}

/// Bytes that a read delivers, and how it ends.
#[derive(Debug)]
pub struct Delivery {
    pub bytes: Vec<u8>,
    pub outcome: TransferOutcome,
}

impl UsbReceiver {
    /// A receiver of packets of at most `max_packet` bytes.
    pub fn new(max_packet: usize) -> (receiver: Self)
        ensures
            receiver.deep_view() == (UsbReceiverView {
                pending: Seq::empty(),
                max_packet,
                last_line: None,
                totals: HardwareCounters { rx_errors: 0, rx_overflow: 0 },
            }),
    {
        UsbReceiver {
            pending: VecDeque::new(),
            max_packet,
            last_line: None,
            totals: HardwareCounters::default(),
        }
    }

    /// Delivers bytes that were received before, as many as fit; nothing without any.
    pub fn take_pending(&mut self, capacity: usize) -> (delivery: Option<Delivery>)
        ensures
            match delivery {
                Some(delivery) => {
                    &&& old(self).deep_view().pending.len() > 0
                    &&& (
                        final(self).deep_view(),
                        delivery.bytes@,
                        delivery.outcome.deep_view(),
                    ) == receive_pending(old(self).deep_view(), capacity)
                },
                None => {
                    &&& old(self).deep_view().pending.len() == 0
                    &&& final(self).deep_view() == old(self).deep_view()
                },
            },
    {
        if self.pending.len() == 0 {
            return None;
        }
        let ghost before = self.pending@;
        let mut bytes: Vec<u8> = Vec::new();
        while bytes.len() < capacity && self.pending.len() > 0
            invariant
                bytes@.len() <= capacity,
                bytes@ + self.pending@ == before,
                self.max_packet == old(self).max_packet,
                self.last_line == old(self).last_line,
                self.totals == old(self).totals,
            decreases self.pending@.len(),
        {
            let ghost pair = (bytes@, self.pending@);
            match self.pending.pop_front() {
                Some(byte) => {
                    bytes.push(byte);
                    assert(bytes@ + self.pending@ =~= pair.0 + pair.1);
                },
                None => {},
            }
        }
        assert(before.take(bytes@.len() as int) =~= bytes@);
        assert(before.skip(bytes@.len() as int) =~= self.pending@);
        let outcome = if bytes.len() == 0 {
            TransferOutcome::failed(
                0,
                TransferFailureKind::WouldBlock,
                "FTDI USB status-only packet",
            )
        } else {
            TransferOutcome::complete(bytes.len())
        };
        Some(Delivery { bytes, outcome })
    }

    /// Takes a completed transfer, and why it stopped if it failed.
    pub fn complete(&mut self, capacity: usize, transfer: &[u8], failure: Option<String>) -> (
        delivery: Delivery)
        ensures
            (final(self).deep_view(), delivery.bytes@, delivery.outcome.deep_view()) == receive(
                old(self).deep_view(),
                capacity,
                transfer@,
                failure.deep_view(),
            ),
    {
        match strip_ftdi_status_from(transfer, self.max_packet, self.last_line) {
            Err(error) => {
                let bytes: Vec<u8> = Vec::new();
                assert(bytes@ =~= Seq::empty());
                Delivery {
                    bytes,
                    outcome: TransferOutcome::failed(
                        0,
                        TransferFailureKind::Protocol,
                        error.message(),
                    ),
                }
            },
            Ok((payload, counters, line)) => {
                self.last_line = line;
                let count: usize = if capacity <= payload.len() {
                    capacity
                } else {
                    payload.len()
                };
                let bytes = vstd::slice::slice_to_vec(
                    vstd::slice::slice_subrange(payload.as_slice(), 0, count),
                );
                assert(bytes@ =~= payload@.take(count as int));
                let ghost held = self.pending@;
                let mut i: usize = count;
                assert(held + payload@.subrange(count as int, count as int) =~= held);
                while i < payload.len()
                    invariant
                        count <= i <= payload@.len(),
                        self.pending@ == held + payload@.subrange(count as int, i as int),
                        self.max_packet == old(self).max_packet,
                        self.last_line == line,
                        self.totals == old(self).totals,
                    decreases payload@.len() - i,
                {
                    self.pending.push_back(payload[i]);
                    assert(self.pending@ =~= held + payload@.subrange(count as int, i + 1));
                    i = i + 1;
                }
                assert(payload@.subrange(count as int, i as int) =~= payload@.skip(count as int));
                match failure {
                    Some(reason) => Delivery {
                        bytes,
                        outcome: TransferOutcome::failed(
                            count,
                            TransferFailureKind::Access,
                            joined("FTDI USB read failed: ", &reason).as_str(),
                        ),
                    },
                    None => {
                        self.totals = HardwareCounters {
                            rx_errors: self.totals.rx_errors.wrapping_add(counters.errors),
                            rx_overflow: self.totals.rx_overflow.wrapping_add(counters.overflow),
                        };
                        let outcome = if count == 0 {
                            TransferOutcome::failed(
                                0,
                                TransferFailureKind::WouldBlock,
                                "FTDI USB status-only packet",
                            )
                        } else {
                            TransferOutcome::complete(count)
                        };
                        Delivery { bytes, outcome }
                    },
                }
            },
        }
    }

    /// What was counted so far.
    pub fn totals(&self) -> (totals: HardwareCounters)
        ensures
            totals == self.deep_view().totals,
    {
        self.totals
    }
}

/// One read: of bytes that were received before, or of a transfer that completed.
pub enum ReceiveStep {
    Pending { capacity: usize },
    Transfer { capacity: usize, transfer: Seq<u8>, failure: Option<Seq<char>> },
}

/// What a read of some capacity does to the receiver, what it delivers, and how it ends. A
/// transfer is taken only once nothing is pending.
pub open spec fn read_step(receiver: UsbReceiverView, step: ReceiveStep) -> Option<
    (UsbReceiverView, Seq<u8>, OutcomeView),
> {
    match step {
        ReceiveStep::Pending { capacity } => Some(receive_pending(receiver, capacity)),
        ReceiveStep::Transfer { capacity, transfer, failure } => if receiver.pending.len() > 0 {
            None
        } else {
            Some(receive(receiver, capacity, transfer, failure))
        },
    }
}

/// What a read adds to the bytes that transfers carried: the payload of a transfer that is well
/// formed.
pub open spec fn carried_by(receiver: UsbReceiverView, step: ReceiveStep) -> Seq<u8> {
    match step {
        ReceiveStep::Pending { .. } => Seq::empty(),
        ReceiveStep::Transfer { transfer, .. } => match strip_result(
            transfer,
            receiver.max_packet as int,
            receiver.last_line,
        ) {
            Ok((payload, _, _)) => payload,
            Err(_) => Seq::empty(),
        },
    }
}

/// The size of the buffer of a read.
pub open spec fn buffer_size(step: ReceiveStep) -> usize {
    match step {
        ReceiveStep::Pending { capacity } => capacity,
        ReceiveStep::Transfer { capacity, .. } => capacity,
    }
}

/// What reads have done: the receiver, what they delivered, and what the transfers carried.
pub struct Reception {
    pub receiver: UsbReceiverView,
    pub delivered: Seq<u8>,
    pub carried: Seq<u8>,
}

/// What some reads do, in turn.
pub open spec fn reception(start: UsbReceiverView, steps: Seq<ReceiveStep>) -> Option<Reception>
    decreases steps.len(),
{
    if steps.len() == 0 {
        Some(Reception { receiver: start, delivered: Seq::empty(), carried: Seq::empty() })
    } else {
        match reception(start, steps.drop_last()) {
            None => None,
            Some(r) => match read_step(r.receiver, steps.last()) {
                None => None,
                Some((receiver, bytes, _)) => Some(
                    Reception {
                        receiver,
                        delivered: r.delivered + bytes,
                        carried: r.carried + carried_by(r.receiver, steps.last()),
                    },
                ),
            },
        }
    }
}

/// Reception is transparent: whatever the capacities of the reads, what they delivered and
/// what is pending are, in order, exactly what the transfers carried. No byte is lost, repeated
/// or reordered.
pub proof fn reception_keeps_every_byte(start: UsbReceiverView, steps: Seq<ReceiveStep>)
    requires
        start.pending.len() == 0,
    ensures
        reception(start, steps) matches Some(r) ==> r.delivered + r.receiver.pending
            == r.carried,
    decreases steps.len(),
{
    if steps.len() == 0 {
        assert(Seq::<u8>::empty() + start.pending =~= Seq::<u8>::empty());
    } else {
        let earlier = steps.drop_last();
        reception_keeps_every_byte(start, earlier);
        match (reception(start, earlier), reception(start, steps)) {
            (Some(before), Some(after)) => {
                assert(after.delivered + after.receiver.pending =~= after.carried);
            },
            _ => {},
        }
    }
}

/// A read delivers at most what its buffer holds, and reports exactly as many bytes as it
/// delivers.
pub proof fn reads_fit_their_buffers(receiver: UsbReceiverView, step: ReceiveStep)
    ensures
        read_step(receiver, step) matches Some((_, bytes, outcome)) ==> bytes.len() <= buffer_size(
            step,
        ) && outcome.completed == bytes.len(),
{
}

/// The outcome of a read that no transfer completed in time.
pub fn read_timed_out() -> (outcome: TransferOutcome)
    ensures
        outcome.deep_view() == failed_outcome(
            0,
            TransferFailureKind::TimedOut,
            "FTDI USB read timed out"@,
        ),
{
    TransferOutcome::failed(0, TransferFailureKind::TimedOut, "FTDI USB read timed out")
}

/// What a failed write means: an interruption, a full queue or a timeout, and otherwise that
/// the device cannot be reached.
pub open spec fn usb_write_outcome(result: Result<usize, IoErrorView>) -> OutcomeView {
    match result {
        Ok(completed) => completed_outcome(completed),
        Err(error) => failed_outcome(
            0,
            match error.kind {
                IoErrorKind::Interrupted => TransferFailureKind::Interrupted,
                IoErrorKind::WouldBlock => TransferFailureKind::WouldBlock,
                IoErrorKind::TimedOut => TransferFailureKind::TimedOut,
                _ => TransferFailureKind::Access,
            },
            error.message,
        ),
    }
}

/// The outcome of a write.
pub fn write_outcome(result: Result<usize, IoError>) -> (outcome: TransferOutcome)
    ensures
        outcome.deep_view() == usb_write_outcome(crate::transfer::io_view(result)),
{
    match result {
        Ok(completed) => TransferOutcome::complete(completed),
        Err(error) => {
            let kind = match error.kind() {
                IoErrorKind::Interrupted => TransferFailureKind::Interrupted,
                IoErrorKind::WouldBlock => TransferFailureKind::WouldBlock,
                IoErrorKind::TimedOut => TransferFailureKind::TimedOut,
                _ => TransferFailureKind::Access,
            };
            TransferOutcome::failed(0, kind, error.message())
        },
    }
}

/// A write moved what it says, and one that failed moved nothing and keeps its diagnostic. An
/// interruption, a full queue and a timeout may pass, and nothing else does.
pub proof fn write_results_are_kept(completed: usize, error: IoErrorView)
    ensures
        usb_write_outcome(Ok(completed)).completed == completed,
        usb_write_outcome(Ok(completed)).failure is None,
        usb_write_outcome(Err(error)).completed == 0,
        usb_write_outcome(Err(error)).failure matches Some(failure) && {
            &&& failure.message == error.message
            &&& failure.kind is Interrupted <==> error.kind is Interrupted
            &&& failure.kind is WouldBlock <==> error.kind is WouldBlock
            &&& failure.kind is TimedOut <==> error.kind is TimedOut
            &&& failure.kind is Access <==> !(error.kind is Interrupted || error.kind is WouldBlock
                || error.kind is TimedOut)
        },
{
}

}
