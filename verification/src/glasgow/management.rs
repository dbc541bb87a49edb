//! Pinned Glasgow API-9 management: command framing, requests, and what replies mean.

use vstd::prelude::*;
use vstd::string::*;

use crate::cli::AppError;
use crate::error::{error_view, Category, ErrorView};
use crate::text::{hex_list, joined, push_hex_list, same_bytes};

use super::resource::{bytes_result, protocol};

pub use super::resource::{
    check_resource, decode_hex, find_resource, validate_resource, validate_resource_data,
    Bitstream, Firmware, FirmwareSegment, Pipe, PipeEndpoint, Profile, Register, Registers,
    ResourceManifest, ValidatedResource,
};

verus! {

broadcast use vstd::string::group_string_axioms;

pub const REQUEST_FPGA_LOAD_CFG: u8 = 0x20;

pub const REQUEST_FPGA_STATUS: u8 = 0x22;

pub const REQUEST_FPGA_SET_REG: u8 = 0x28;

pub const REQUEST_FPGA_GET_REG: u8 = 0x29;

pub const REQUEST_SET_VSUPPLY: u8 = 0x30;

pub const REQUEST_SET_PULLS: u8 = 0x3a;

pub const RESULT_ACK: u8 = 0x00;

pub const RESULT_WAIT: u8 = 0x01;

/// How long one management transfer may take, in milliseconds.
pub const COMMAND_TIMEOUT_MILLIS: u64 = 500;

/// How many transfers a management endpoint queues.
pub const MANAGEMENT_TRANSFERS: usize = 4;

/// How many bytes a management transfer holds.
pub const MANAGEMENT_TRANSFER_SIZE: usize = 64;

/// The most bytes that a management command carries behind its serial number.
pub const MAXIMUM_PAYLOAD: usize = 63;

/// The command counter of a management interface. A command and its reply share a serial
/// number; the next command has the next one, and the numbers run from 1 to 255.
#[derive(Debug)]
pub struct Management {
    serial: u8,
}

/// The serial number after `serial`.
pub open spec fn next_serial(serial: u8) -> u8 {
    if serial == u8::MAX {
        1
    } else {
        (serial + 1) as u8
    }
}

/// The serial number after `count` commands.
pub open spec fn serial_after(serial: u8, count: nat) -> u8
    decreases count,
{
    if count == 0 {
        serial
    } else {
        next_serial(serial_after(serial, (count - 1) as nat))
    }
}

/// Serial numbers run through 1 to 255 in turn, so they are never 0 and a reply to any of the
/// 254 commands before the current one never passes for its own.
pub proof fn serials_are_distinct(count: nat, other: nat)
    requires
        count < other < count + 255,
    ensures
        serial_after(1, count) != 0,
        serial_after(1, count) != serial_after(1, other),
{
    lemma_serial_value(count);
    lemma_serial_value(other);
    assert(count % 255 != other % 255) by (nonlinear_arith)
        requires
            count < other < count + 255,
    ;
}

proof fn lemma_serial_value(count: nat)
    ensures
        serial_after(1, count) == count % 255 + 1,
    decreases count,
{
    if count > 0 {
        lemma_serial_value((count - 1) as nat);
    }
}

/// A command on its way: its serial number and the packet that carries it.
#[derive(Debug)]
pub struct Command {
    pub serial: u8,
    pub packet: Vec<u8>,
}

/// What became of a command.
#[derive(Debug)]
pub enum Exchange {
    /// The packet was not sent.
    WriteFailed(String),
    /// No reply was read.
    ReadFailed(String),
    /// The bytes of the reply.
    Reply(Vec<u8>),
}

/// What became of a command, by views.
pub enum ExchangeView {
    WriteFailed(Seq<char>),
    ReadFailed(Seq<char>),
    Reply(Seq<u8>),
}

impl DeepView for Exchange {
    type V = ExchangeView;

    open spec fn deep_view(&self) -> ExchangeView {
        match self {
            Exchange::WriteFailed(reason) => ExchangeView::WriteFailed(reason@),
            Exchange::ReadFailed(reason) => ExchangeView::ReadFailed(reason@),
            Exchange::Reply(bytes) => ExchangeView::Reply(bytes@),
        }
    }
}

/// What a command with the given serial number returns.
pub open spec fn command_result(serial: u8, exchange: ExchangeView) -> Result<Seq<u8>, ErrorView> {
    match exchange {
        ExchangeView::WriteFailed(reason) => Err(
            error_view(Category::Access, "Glasgow management write failed: "@ + reason),
        ),
        ExchangeView::ReadFailed(reason) => Err(
            error_view(Category::Access, "Glasgow management response failed: "@ + reason),
        ),
        ExchangeView::Reply(bytes) => if bytes.len() == 0 || bytes[0] != serial {
            Err(protocol("Glasgow management response serial mismatch"@))
        } else {
            Ok(bytes.skip(1))
        },
    }
}

impl Management {
    /// The serial number of the next command.
    pub closed spec fn next(&self) -> u8 {
        self.serial
    }

    /// An interface that has sent no command.
    pub fn new() -> (management: Management)
        ensures
            management.next() == 1,
    {
        Management { serial: 1 }
    }

    /// Frames a command. A payload that is too long is rejected and takes no serial number.
    pub fn command(&mut self, payload: &[u8]) -> (result: Result<Command, AppError>)
        ensures
            match result {
                Ok(command) => {
                    &&& payload@.len() <= MAXIMUM_PAYLOAD
                    &&& command.serial == old(self).next()
                    &&& command.packet@ == seq![old(self).next()] + payload@
                    &&& final(self).next() == next_serial(old(self).next())
                },
                Err(error) => {
                    &&& payload@.len() > MAXIMUM_PAYLOAD
                    &&& error.deep_view() == protocol(
                        "Glasgow management command exceeds 63-byte payload"@,
                    )
                    &&& final(self).next() == old(self).next()
                },
            },
    {
        if payload.len() > MAXIMUM_PAYLOAD {
            return Err(
                AppError::Protocol("Glasgow management command exceeds 63-byte payload".to_owned()),
            );
        }
        let serial = self.serial;
        self.serial = if serial == u8::MAX {
            1
        } else {
            serial + 1
        };
        let mut packet: Vec<u8> = Vec::new();
        packet.push(serial);
        packet.extend_from_slice(payload);
        assert(packet@ =~= seq![serial] + payload@);
        Ok(Command { serial, packet })
    }
}

impl Command {
    /// What the command returns.
    pub fn complete(&self, exchange: Exchange) -> (result: Result<Vec<u8>, AppError>)
        ensures
            bytes_result(result) == command_result(self.serial, exchange.deep_view()),
    {
        match exchange {
            Exchange::WriteFailed(reason) => Err(
                AppError::Access(joined("Glasgow management write failed: ", &reason)),
            ),
            Exchange::ReadFailed(reason) => Err(
                AppError::Access(joined("Glasgow management response failed: ", &reason)),
            ),
            Exchange::Reply(bytes) => {
                if bytes.len() == 0 || bytes[0] != self.serial {
                    return Err(
                        AppError::Protocol(
                            "Glasgow management response serial mismatch".to_owned(),
                        ),
                    );
                }
                let response = vstd::slice::slice_to_vec(
                    vstd::slice::slice_subrange(bytes.as_slice(), 1, bytes.len()),
                );
                assert(response@ =~= bytes@.skip(1));
                Ok(response)
            },
        }
    }
}

/// A device that answers with the serial number of a command and some bytes has those bytes
/// returned.
pub proof fn commands_return_their_replies(serial: u8, response: Seq<u8>)
    ensures
        command_result(serial, ExchangeView::Reply(seq![serial] + response)) == Ok::<
            Seq<u8>,
            ErrorView,
        >(response),
{
    assert((seq![serial] + response).skip(1) =~= response);
}

/// The verdict on a reply that should acknowledge an operation.
pub open spec fn acknowledgement(response: Seq<u8>, operation: Seq<char>) -> Result<
    (),
    ErrorView,
> {
    if response == seq![RESULT_ACK] {
        Ok(())
    } else {
        Err(protocol("Glasgow "@ + operation + " returned "@ + hex_list(response)))
    }
}

/// A result without a value, taken by its views.
pub open spec fn unit_result(result: Result<(), AppError>) -> Result<(), ErrorView> {
    match result {
        Ok(()) => Ok(()),
        Err(error) => Err(error.deep_view()),
    }
}

/// Accepts only an acknowledgement.
pub fn expect_ack(response: &[u8], operation: &str) -> (result: Result<(), AppError>)
    ensures
        unit_result(result) == acknowledgement(response@, operation@),
{
    if response.len() == 1 && response[0] == RESULT_ACK {
        assert(response@ =~= seq![RESULT_ACK]);
        return Ok(());
    }
    let mut message = joined("Glasgow ", operation);
    message.append(" returned ");
    push_hex_list(&mut message, response);
    Err(AppError::Protocol(message))
}

/// The request for the state of the FPGA.
pub open spec fn status_payload() -> Seq<u8> {
    seq![REQUEST_FPGA_STATUS]
}

/// What a reply says of the FPGA: the identifier of its bitstream, all zero without one.
pub open spec fn reported_status(response: Seq<u8>) -> Result<Option<Seq<u8>>, ErrorView> {
    if response.len() != 13 || response[0] != RESULT_ACK {
        Err(protocol("invalid Glasgow FPGA status response"@))
    } else {
        let id = response.subrange(5, 13);
        if id == seq![0u8, 0u8, 0u8, 0u8, 0u8, 0u8, 0u8, 0u8] {
            Ok(None)
        } else {
            Ok(Some(id))
        }
    }
}

/// A status taken by its views.
pub open spec fn status_view(result: Result<Option<[u8; 8]>, AppError>) -> Result<
    Option<Seq<u8>>,
    ErrorView,
> {
    match result {
        Ok(Some(id)) => Ok(Some(id@)),
        Ok(None) => Ok(None),
        Err(error) => Err(error.deep_view()),
    }
}

/// The request for the state of the FPGA.
pub fn status_request() -> (payload: Vec<u8>)
    ensures
        payload@ == status_payload(),
{
    let mut payload: Vec<u8> = Vec::new();
    payload.push(REQUEST_FPGA_STATUS);
    assert(payload@ =~= status_payload());
    payload
}

/// Reads the state of the FPGA out of a reply.
pub fn fpga_status(response: &[u8]) -> (result: Result<Option<[u8; 8]>, AppError>)
    ensures
        status_view(result) == reported_status(response@),
{
    if response.len() != 13 || response[0] != RESULT_ACK {
        return Err(AppError::Protocol("invalid Glasgow FPGA status response".to_owned()));
    }
    let id: [u8; 8] = [
        response[5],
        response[6],
        response[7],
        response[8],
        response[9],
        response[10],
        response[11],
        response[12],
    ];
    assert(id@ =~= response@.subrange(5, 13));
    let none: [u8; 8] = [0, 0, 0, 0, 0, 0, 0, 0];
    assert(none@ =~= seq![0u8, 0u8, 0u8, 0u8, 0u8, 0u8, 0u8, 0u8]);
    if same_bytes(vstd::array::array_as_slice(&id), vstd::array::array_as_slice(&none)) {
        Ok(None)
    } else {
        Ok(Some(id))
    }
}

/// The low bytes of a number, least significant first.
pub open spec fn little_endian(value: nat, width: nat) -> Seq<u8>
    decreases width,
{
    if width == 0 {
        Seq::empty()
    } else {
        seq![(value % 256) as u8] + little_endian(value / 256, (width - 1) as nat)
    }
}

/// The number that bytes spell, least significant first.
pub open spec fn little_endian_value(bytes: Seq<u8>) -> nat
    decreases bytes.len(),
{
    if bytes.len() == 0 {
        0
    } else {
        bytes[0] as nat + 256 * little_endian_value(bytes.drop_first())
    }
}

/// The low bytes of a number, most significant first.
pub open spec fn big_endian(value: nat, width: nat) -> Seq<u8>
    decreases width,
{
    if width == 0 {
        Seq::empty()
    } else {
        big_endian(value / 256, (width - 1) as nat).push((value % 256) as u8)
    }
}

/// The request to configure the FPGA with a bitstream of some length and identifier.
pub open spec fn load_payload(length: nat, id: Seq<u8>) -> Seq<u8> {
    seq![REQUEST_FPGA_LOAD_CFG] + little_endian(length, 4) + id
}

/// The request to configure the FPGA, where the length fits.
pub open spec fn load_request_result(length: nat, id: Seq<u8>) -> Result<Seq<u8>, ErrorView> {
    if length > u32::MAX {
        Err(protocol("Glasgow bitstream is too large"@))
    } else {
        Ok(load_payload(length, id))
    }
}

/// The request to configure the FPGA with a bitstream of the given length and identifier.
pub fn load_request(length: usize, bitstream_id: [u8; 8]) -> (result: Result<Vec<u8>, AppError>)
    ensures
        bytes_result(result) == load_request_result(length as nat, bitstream_id@),
{
    if length as u64 > 0xffff_ffff {
        return Err(AppError::Protocol("Glasgow bitstream is too large".to_owned()));
    }
    let mut payload: Vec<u8> = Vec::new();
    payload.push(REQUEST_FPGA_LOAD_CFG);
    payload.push((length % 256) as u8);
    payload.push((length / 256 % 256) as u8);
    payload.push((length / 65536 % 256) as u8);
    payload.push((length / 16777216 % 256) as u8);
    payload.extend_from_slice(vstd::array::array_as_slice(&bitstream_id));
    proof {
        reveal_with_fuel(little_endian, 5);
        assert(length as nat / 256 / 256 == length as nat / 65536);
        assert(length as nat / 256 / 256 / 256 == length as nat / 16777216);
    }
    assert(payload@ =~= load_payload(length as nat, bitstream_id@));
    Ok(payload)
}

/// What a reply to a configuration request calls for.
#[derive(Debug)]
pub enum LoadProgress {
    /// The FPGA is configured.
    Done,
    /// The request is repeated after a pause.
    Wait,
    /// The configuration failed.
    Failed(AppError),
}

/// What a reply to a configuration request calls for, by views.
pub enum LoadProgressView {
    Done,
    Wait,
    Failed(ErrorView),
}

impl DeepView for LoadProgress {
    type V = LoadProgressView;

    open spec fn deep_view(&self) -> LoadProgressView {
        match self {
            LoadProgress::Done => LoadProgressView::Done,
            LoadProgress::Wait => LoadProgressView::Wait,
            LoadProgress::Failed(error) => LoadProgressView::Failed(error.deep_view()),
        }
    }
}

/// What a reply to a configuration request calls for: an acknowledgement ends it, and a
/// request to wait is honored until the deadline.
pub open spec fn load_progress(response: Seq<u8>, overdue: bool) -> LoadProgressView {
    if response == seq![RESULT_ACK] {
        LoadProgressView::Done
    } else if response == seq![RESULT_WAIT] && !overdue {
        LoadProgressView::Wait
    } else {
        LoadProgressView::Failed(
            protocol("Glasgow FPGA configuration failed with "@ + hex_list(response)),
        )
    }
}

/// Decides what a reply to a configuration request calls for.
pub fn finish_fpga_load(response: &[u8], overdue: bool) -> (progress: LoadProgress)
    ensures
        progress.deep_view() == load_progress(response@, overdue),
{
    if response.len() == 1 && response[0] == RESULT_ACK {
        assert(response@ =~= seq![RESULT_ACK]);
        return LoadProgress::Done;
    }
    if response.len() == 1 && response[0] == RESULT_WAIT && !overdue {
        assert(response@ =~= seq![RESULT_WAIT]);
        return LoadProgress::Wait;
    }
    let mut message = "Glasgow FPGA configuration failed with ".to_owned();
    push_hex_list(&mut message, response);
    LoadProgress::Failed(AppError::Protocol(message))
}

/// The request to store a value in a register.
pub open spec fn write_payload(register: Register, value: u32) -> Seq<u8> {
    seq![REQUEST_FPGA_SET_REG, register.address] + big_endian(
        value as nat,
        register.storage_bytes as nat,
    )
}

/// The request to store a value in a register of at most four bytes. The value travels highest
/// byte first, and its bytes beyond the register's width are left out.
pub fn write_register(register: &Register, value: u32) -> (payload: Vec<u8>)
    requires
        register.storage_bytes <= 4,
    ensures
        payload@ == write_payload(*register, value),
{
    let width = register.storage_bytes;
    let mut payload: Vec<u8> = Vec::new();
    payload.push(REQUEST_FPGA_SET_REG);
    payload.push(register.address);
    if width >= 4 {
        payload.push((value / 16777216) as u8);
    }
    if width >= 3 {
        payload.push((value / 65536 % 256) as u8);
    }
    if width >= 2 {
        payload.push((value / 256 % 256) as u8);
    }
    if width >= 1 {
        payload.push((value % 256) as u8);
    }
    proof {
        reveal_with_fuel(big_endian, 5);
        assert(value as nat / 256 / 256 == value as nat / 65536);
        assert(value as nat / 256 / 256 / 256 == value as nat / 16777216);
    }
    assert(payload@ =~= write_payload(*register, value));
    payload
}

/// The request for the value of a register.
pub open spec fn read_payload(register: Register) -> Seq<u8> {
    seq![REQUEST_FPGA_GET_REG, register.address, register.storage_bytes]
}

/// The request for the value of a register.
pub fn read_request(register: &Register) -> (payload: Vec<u8>)
    ensures
        payload@ == read_payload(*register),
{
    let mut payload: Vec<u8> = Vec::new();
    payload.push(REQUEST_FPGA_GET_REG);
    payload.push(register.address);
    payload.push(register.storage_bytes);
    assert(payload@ =~= read_payload(*register));
    payload
}

/// The register value in a reply.
pub open spec fn register_value(register: Register, response: Seq<u8>) -> Result<nat, ErrorView> {
    if response.len() != register.storage_bytes + 1 || response[0] != RESULT_ACK {
        Err(protocol("invalid Glasgow register response"@))
    } else {
        Ok(little_endian_value(response.skip(1)))
    }
}

/// A number taken by its views.
pub open spec fn value_result(result: Result<u32, AppError>) -> Result<nat, ErrorView> {
    match result {
        Ok(value) => Ok(value as nat),
        Err(error) => Err(error.deep_view()),
    }
}

/// Reads the value of a register of at most four bytes out of a reply.
pub fn read_register(register: &Register, response: &[u8]) -> (result: Result<u32, AppError>)
    requires
        register.storage_bytes <= 4,
    ensures
        value_result(result) == register_value(*register, response@),
{
    if response.len() != register.storage_bytes as usize + 1 || response[0] != RESULT_ACK {
        return Err(AppError::Protocol("invalid Glasgow register response".to_owned()));
    }
    let ghost bytes = response@.skip(1);
    let mut value: u32 = 0;
    let mut i: usize = response.len();
    proof {
        assert(bytes.skip(bytes.len() as int) =~= Seq::empty());
    }
    while i > 1
        invariant
            1 <= i <= response@.len(),
            response@.len() <= 5,
            bytes == response@.skip(1),
            value == little_endian_value(bytes.skip(i - 1)),
            i == 5 ==> value == 0,
            i == 4 ==> value < 0x100,
            i == 3 ==> value < 0x1_0000,
            i == 2 ==> value < 0x100_0000,
        decreases i,
    {
        i = i - 1;
        assert(bytes.skip(i - 1).drop_first() =~= bytes.skip(i as int));
        assert(bytes.skip(i - 1)[0] == response@[i as int]);
        value = response[i] as u32 + 256 * value;
    }
    assert(bytes.skip(0) =~= bytes);
    Ok(value)
}

/// What a device sends of a register's value is the value read back, for every value that the
/// register can hold.
pub proof fn registers_read_back(register: Register, value: u32)
    requires
        register.storage_bytes <= 4,
        register.storage_bytes == 4 || register.storage_bytes == 3 && value < 0x100_0000
            || register.storage_bytes == 2 && value < 0x1_0000 || register.storage_bytes == 1
            && value < 0x100 || register.storage_bytes == 0 && value == 0,
    ensures
        register_value(
            register,
            seq![RESULT_ACK] + little_endian(value as nat, register.storage_bytes as nat),
        ) == Ok::<nat, ErrorView>(value as nat),
{
    let bytes = little_endian(value as nat, register.storage_bytes as nat);
    lemma_little_endian(value as nat, register.storage_bytes as nat);
    assert((seq![RESULT_ACK] + bytes).skip(1) =~= bytes);
    reveal_with_fuel(vstd::arithmetic::power::pow, 5);
}

/// The low bytes of a number spell it, where they are enough.
pub proof fn lemma_little_endian(value: nat, width: nat)
    ensures
        little_endian(value, width).len() == width,
        value < vstd::arithmetic::power::pow(256, width) ==> little_endian_value(
            little_endian(value, width),
        ) == value,
    decreases width,
{
    reveal(vstd::arithmetic::power::pow);
    if width > 0 {
        let rest = (width - 1) as nat;
        lemma_little_endian(value / 256, rest);
        let bytes = little_endian(value, width);
        assert(bytes.drop_first() =~= little_endian(value / 256, rest));
        let power = vstd::arithmetic::power::pow(256, rest);
        assert(vstd::arithmetic::power::pow(256, width) == 256 * power);
        if value < 256 * power {
            assert((value / 256) < power);
        }
    }
}

/// The request to set the supply of port A to a voltage.
pub open spec fn voltage_payload(enable: bool) -> Seq<u8> {
    let millivolts: nat = if enable {
        3300
    } else {
        0
    };
    let one = little_endian(millivolts, 2);
    seq![REQUEST_SET_VSUPPLY, 0x01] + one + one + one + one
}

/// The request to set the pull of port A at pin 0.
pub open spec fn pulls_payload(enable: bool) -> Seq<u8> {
    seq![
        REQUEST_SET_PULLS,
        0x01,
        0,
        if enable {
            1
        } else {
            0
        },
        0,
        0,
        0,
        0,
        0,
        0,
    ]
}

/// The request to switch the supply of port A on at 3.3 V, or off.
pub fn voltage_request(enable: bool) -> (payload: Vec<u8>)
    ensures
        payload@ == voltage_payload(enable),
{
    let low: u8 = if enable {
        0xe4
    } else {
        0
    };
    let high: u8 = if enable {
        0x0c
    } else {
        0
    };
    let payload: Vec<u8> = vec![
        REQUEST_SET_VSUPPLY,
        0x01,
        low,
        high,
        low,
        high,
        low,
        high,
        low,
        high,
    ];
    proof {
        reveal_with_fuel(little_endian, 3);
    }
    assert(payload@ =~= voltage_payload(enable));
    payload
}

/// The request to switch the pull of port A on, or off.
pub fn pulls_request(enable: bool) -> (payload: Vec<u8>)
    ensures
        payload@ == pulls_payload(enable),
{
    let pull: u8 = if enable {
        1
    } else {
        0
    };
    let payload: Vec<u8> = vec![REQUEST_SET_PULLS, 0x01, 0, pull, 0, 0, 0, 0, 0, 0];
    assert(payload@ =~= pulls_payload(enable));
    payload
}

/// A request of the electrical profile, and what it is called in diagnostics.
#[derive(Debug)]
pub struct ProfileRequest {
    pub payload: Vec<u8>,
    pub operation: &'static str,
}

/// The requests that switch the electrical profile of port A on, or off: first the supply,
/// then the pull. The second is sent only where the first is acknowledged.
pub fn set_fixed_profile(enable: bool) -> (requests: (ProfileRequest, ProfileRequest))
    ensures
        requests.0.payload@ == voltage_payload(enable),
        requests.0.operation@ == "port-A voltage configuration"@,
        requests.1.payload@ == pulls_payload(enable),
        requests.1.operation@ == "port-A pull configuration"@,
{
    (
        ProfileRequest {
            payload: voltage_request(enable),
            operation: "port-A voltage configuration",
        },
        ProfileRequest {
            payload: pulls_request(enable),
            operation: "port-A pull configuration",
        },
    )
}

/// The number that bytes spell, most significant first.
pub open spec fn big_endian_value(bytes: Seq<u8>) -> nat
    decreases bytes.len(),
{
    if bytes.len() == 0 {
        0
    } else {
        256 * big_endian_value(bytes.drop_last()) + bytes.last() as nat
    }
}

/// A request to store a value names the register, and carries the value, most significant byte
/// first, in as many bytes as the register has; a value that fits is carried whole.
pub proof fn registers_are_written_whole(register: Register, value: u32)
    requires
        register.storage_bytes <= 4,
    ensures
        ({
            let payload = write_payload(register, value);
            let carried = big_endian_value(payload.skip(2));
            &&& payload.len() == 2 + register.storage_bytes
            &&& payload[0] == 0x28
            &&& payload[1] == register.address
            &&& register.storage_bytes == 4 ==> carried == value
            &&& register.storage_bytes == 3 ==> carried == value % 0x100_0000
            &&& register.storage_bytes == 2 ==> carried == value % 0x1_0000
            &&& register.storage_bytes == 1 ==> carried == value % 0x100
        }),
{
    let width = register.storage_bytes as nat;
    let payload = write_payload(register, value);
    lemma_big_endian(value as nat, width);
    assert(payload.skip(2) =~= big_endian(value as nat, width));
}

proof fn lemma_big_endian(value: nat, width: nat)
    requires
        width <= 4,
    ensures
        big_endian(value, width).len() == width,
        width == 0 ==> big_endian_value(big_endian(value, width)) == 0,
        width == 1 ==> big_endian_value(big_endian(value, width)) == value % 0x100,
        width == 2 ==> big_endian_value(big_endian(value, width)) == value % 0x1_0000,
        width == 3 ==> big_endian_value(big_endian(value, width)) == value % 0x100_0000,
        width == 4 ==> big_endian_value(big_endian(value, width)) == value % 0x1_0000_0000,
    decreases width,
{
    if width > 0 {
        let upper = big_endian(value / 256, (width - 1) as nat);
        lemma_big_endian(value / 256, (width - 1) as nat);
        assert(big_endian(value, width).drop_last() =~= upper);
    }
}

}
