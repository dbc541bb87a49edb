//! What the management interface is told, and what its answers mean.

use vstd::prelude::*;

use crate::error::{Category, ErrorView};

use super::management::{
    acknowledgement, command_result, lemma_little_endian, little_endian, little_endian_value,
    load_progress, load_request_result, next_serial, pulls_payload, read_payload, register_value,
    reported_status, status_payload, voltage_payload, ExchangeView, LoadProgressView,
};
use super::resource::Register;

verus! {

/// A command returns what was answered to it: bytes come back exactly where the reply carries the
/// command's serial number, and they are all that stands behind it. A transfer that failed is an
/// access error with its own reason, and a reply to another command a protocol error.
pub proof fn answers_belong_to_their_commands(
    serial: u8,
    bytes: Seq<u8>,
    response: Seq<u8>,
    reason: Seq<char>,
)
    ensures
        command_result(serial, ExchangeView::Reply(bytes)) == Ok::<Seq<u8>, ErrorView>(response)
            <==> bytes == seq![serial] + response,
        bytes.len() == 0 || bytes[0] != serial ==> (command_result(
            serial,
            ExchangeView::Reply(bytes),
        ) matches Err(error) && error.category == Category::Protocol),
        command_result(serial, ExchangeView::WriteFailed(reason)) matches Err(error)
            && error.category == Category::Access && ends_with(error.message, reason),
        command_result(serial, ExchangeView::ReadFailed(reason)) matches Err(error)
            && error.category == Category::Access && ends_with(error.message, reason),
{
    if bytes.len() > 0 && bytes[0] == serial {
        assert(bytes =~= seq![serial] + bytes.skip(1));
    }
    if bytes == seq![serial] + response {
        assert(bytes.skip(1) =~= response);
    }
    let wrote = "Glasgow management write failed: "@ + reason;
    assert(wrote.skip(wrote.len() - reason.len()) =~= reason);
    let read = "Glasgow management response failed: "@ + reason;
    assert(read.skip(read.len() - reason.len()) =~= reason);
}

/// Whether a text ends with another.
pub open spec fn ends_with(text: Seq<char>, end: Seq<char>) -> bool {
    text.len() >= end.len() && text.skip(text.len() - end.len()) == end
}

/// Serial numbers follow each other and skip zero.
pub proof fn serials_follow_each_other(serial: u8)
    ensures
        serial < 255 ==> next_serial(serial) == serial + 1,
        serial == 255 ==> next_serial(serial) == 1,
        next_serial(serial) != 0,
{
}

/// An operation is acknowledged by the single byte zero and by nothing else.
pub proof fn only_zero_acknowledges(response: Seq<u8>, operation: Seq<char>)
    ensures
        acknowledgement(response, operation) is Ok <==> response.len() == 1 && response[0] == 0,
        acknowledgement(response, operation) matches Err(error) ==> error.category
            == Category::Protocol,
{
    if response.len() == 1 && response[0] == 0 {
        assert(response =~= seq![0u8]);
    }
}

/// The state of the FPGA is asked for by the single byte 0x22. Its answer is a zero, four bytes
/// that do not matter, and the identifier of the bitstream, of which one all of zeros says that
/// there is none.
pub proof fn states_are_read(response: Seq<u8>)
    ensures
        status_payload() == seq![0x22u8],
        reported_status(response) is Ok <==> response.len() == 13 && response[0] == 0,
        reported_status(response) matches Ok(None) ==> forall|i: int|
            5 <= i < 13 ==> #[trigger] response[i] == 0,
        reported_status(response) matches Ok(Some(id)) ==> {
            &&& id.len() == 8
            &&& forall|i: int| 0 <= i < 8 ==> #[trigger] id[i] == response[5 + i]
            &&& exists|i: int| 0 <= i < 8 && #[trigger] id[i] != 0
        },
{
    if response.len() == 13 && response[0] == 0 {
        let id = response.subrange(5, 13);
        let none = seq![0u8, 0u8, 0u8, 0u8, 0u8, 0u8, 0u8, 0u8];
        if id == none {
            assert forall|i: int| 5 <= i < 13 implies #[trigger] response[i] == 0 by {
                assert(response[i] == id[i - 5]);
                assert(none[i - 5] == 0);
            }
        } else {
            assert(exists|i: int| 0 <= i < 8 && #[trigger] id[i] != 0) by {
                if forall|i: int| 0 <= i < 8 ==> #[trigger] id[i] == 0 {
                    assert forall|i: int| 0 <= i < 8 implies id[i] == none[i] by {
                        assert(none[i] == 0);
                    }
                    assert(id =~= none);
                }
            }
            assert(reported_status(response) == Ok::<Option<Seq<u8>>, ErrorView>(Some(id)));
        }
    }
}

/// The request to configure the FPGA is the byte 0x20, the length of the bitstream in four bytes,
/// least significant first, and its identifier. A length that four bytes do not hold is refused.
pub proof fn bitstreams_are_announced_whole(length: nat, id: Seq<u8>)
    ensures
        load_request_result(length, id) is Ok <==> length < 0x1_0000_0000,
        load_request_result(length, id) matches Ok(payload) ==> {
            &&& payload.len() == 5 + id.len()
            &&& payload[0] == 0x20
            &&& little_endian_value(payload.subrange(1, 5)) == length
            &&& payload.skip(5) == id
        },
{
    if length < 0x1_0000_0000 {
        let payload = load_request_result(length, id)->Ok_0;
        lemma_little_endian(length, 4);
        reveal_with_fuel(vstd::arithmetic::power::pow, 5);
        assert(payload.subrange(1, 5) =~= little_endian(length, 4));
        assert(payload.skip(5) =~= id);
    }
}

/// Bytes that spell a number, least significant first, count up by powers of 256.
pub proof fn little_endian_counts_up(bytes: Seq<u8>)
    requires
        bytes.len() == 4,
    ensures
        little_endian_value(bytes) == bytes[0] + 0x100 * bytes[1] + 0x1_0000 * bytes[2]
            + 0x100_0000 * bytes[3],
{
    let three = bytes.drop_first();
    let two = three.drop_first();
    let one = two.drop_first();
    assert(one.drop_first().len() == 0);
    assert(little_endian_value(one.drop_first()) == 0);
    assert(little_endian_value(one) == bytes[3]);
    assert(little_endian_value(two) == bytes[2] + 256 * little_endian_value(one));
    assert(little_endian_value(three) == bytes[1] + 256 * little_endian_value(two));
}

/// A configuration is done on the byte zero, waited for on the byte one until the deadline, and
/// failed on anything else.
pub proof fn configurations_end(response: Seq<u8>, overdue: bool)
    ensures
        load_progress(response, overdue) is Done <==> response.len() == 1 && response[0] == 0,
        load_progress(response, overdue) is Wait <==> response.len() == 1 && response[0] == 1
            && !overdue,
        load_progress(response, overdue) matches LoadProgressView::Failed(error) ==> error.category
            == Category::Protocol,
{
    if response.len() == 1 && response[0] == 0 {
        assert(response =~= seq![0u8]);
    }
    if response.len() == 1 && response[0] == 1 {
        assert(response =~= seq![1u8]);
    }
}

/// The value of a register is asked for by the byte 0x29, its address and its width. Its answer is
/// a zero and exactly as many bytes as the register has.
pub proof fn registers_are_asked_for(register: Register, response: Seq<u8>)
    ensures
        read_payload(register) == seq![0x29u8, register.address, register.storage_bytes],
        register_value(register, response) is Ok <==> response.len() == 1 + register.storage_bytes
            && response[0] == 0,
        register_value(register, response) matches Ok(value) ==> (register.storage_bytes == 4
            ==> value == response[1] + 0x100 * response[2] + 0x1_0000 * response[3] + 0x100_0000
            * response[4]),
        register_value(register, response) matches Err(error) ==> error.category
            == Category::Protocol,
{
    if response.len() == 5 && register.storage_bytes == 4 {
        little_endian_counts_up(response.skip(1));
    }
}

/// The supply of port A is switched to 3300 millivolts with its pull at pin 0 on, or to nothing
/// with every pull off.
pub proof fn profiles_are_switched(enable: bool)
    ensures
        ({
            let voltage = voltage_payload(enable);
            let pulls = pulls_payload(enable);
            &&& voltage.len() == 10 && voltage[0] == 0x30 && voltage[1] == 1
            &&& forall|i: int|
                1 <= i < 5 ==> (#[trigger] voltage[2 * i]) + 256 * voltage[2 * i + 1] == (
                if enable {
                    3300int
                } else {
                    0
                })
            &&& pulls.len() == 10 && pulls[0] == 0x3a && pulls[1] == 1
            &&& pulls[3] == (if enable {
                1u8
            } else {
                0
            })
            &&& forall|i: int| 2 <= i < 10 && i != 3 ==> #[trigger] pulls[i] == 0
        }),
{
    reveal_with_fuel(little_endian, 3);
    let voltage = voltage_payload(enable);
    let millivolts: nat = if enable {
        3300
    } else {
        0
    };
    let one = little_endian(millivolts, 2);
    assert(one.len() == 2 && one[0] + 256 * one[1] == millivolts);
    assert forall|i: int| 1 <= i < 5 implies (#[trigger] voltage[2 * i]) + 256 * voltage[2 * i + 1]
        == millivolts by {
        assert(voltage[2 * i] == one[0] && voltage[2 * i + 1] == one[1]);
    }
}

}
