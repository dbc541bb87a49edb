//! Validation of embedded Glasgow resources.

use sha2::{Digest, Sha256};
use vstd::prelude::*;
use vstd::string::*;

use crate::cli::AppError;
use crate::error::{error_view, Category, ErrorView};
use crate::text::{
    hex_bytes, hex_bytes_text, hex_digit, joined, parse_unsigned, parsed_unsigned, same_text,
};
use crate::uart::glasgow::resources::{
    first_for, for_revision, is_supported, supported_stepping, unsupported, GlasgowResource,
};

use super::device::API_LEVEL;

verus! {

broadcast use vstd::string::group_string_axioms;

/// One FPGA register.
#[derive(Clone, Debug)]
pub struct Register {
    pub address: u8,
    pub width_bits: u8,
    pub storage_bytes: u8,
    pub endian: String,
    pub access: String,
}

/// One direction of the UART pipe.
#[derive(Clone, Debug)]
pub struct PipeEndpoint {
    pub interface: u8,
    pub alternate_setting: u8,
    pub endpoint: u8,
    pub max_packet: u16,
}

/// One run of FX2 firmware bytes.
#[derive(Clone, Debug)]
pub struct FirmwareSegment {
    pub address: u16,
    pub data_hex: String,
}

/// What a resource says of itself.
#[derive(Clone, Debug)]
pub struct ResourceManifest {
    pub schema_version: u8,
    pub upstream_commit: String,
    pub revision: String,
    pub profile: Profile,
    pub bitstream: Bitstream,
    pub registers: Registers,
    pub pipe: Pipe,
    pub firmware: Firmware,
}

/// The electrical and framing profile of a resource.
#[derive(Clone, Debug)]
pub struct Profile {
    pub port: String,
    /// The voltage as the bits of an IEEE 754 double.
    pub voltage: u64,
    pub rx: String,
    pub tx: String,
    pub data_bits: u8,
    pub parity: String,
    pub stop_bits: u8,
    pub flow_control: String,
    pub inverted: bool,
}

/// The bitstream of a resource.
#[derive(Clone, Debug)]
pub struct Bitstream {
    pub file: String,
    pub id: String,
    pub sha256: String,
}

/// The registers of a resource.
#[derive(Clone, Debug)]
pub struct Registers {
    pub baud_divisor: Register,
    pub rx_errors: Register,
    pub rx_overflow: Register,
    pub tx_state: Register,
}

/// The UART pipe of a resource.
#[derive(Clone, Debug)]
pub struct Pipe {
    pub rx: PipeEndpoint,
    pub tx: PipeEndpoint,
}

/// The FX2 firmware of a resource.
#[derive(Clone, Debug)]
pub struct Firmware {
    pub api_level: u8,
    pub source_sha256: String,
    pub segments: Vec<FirmwareSegment>,
}

/// A resource that passed validation.
#[derive(Debug)]
pub struct ValidatedResource {
    pub embedded: GlasgowResource,
    pub manifest: ResourceManifest,
    pub bitstream_id: [u8; 8],
}

/// 3.3 as the bits of an IEEE 754 double.
pub const VOLTAGE_3V3: u64 = 0x400a_6666_6666_6666;

/// A protocol error with the given diagnostic.
pub open spec fn protocol(message: Seq<char>) -> ErrorView {
    error_view(Category::Protocol, message)
}

/// The value of the pair of hexadecimal digits at position `i`.
pub open spec fn hex_pair(bytes: Seq<u8>, i: int) -> Option<nat> {
    parsed_unsigned(bytes.subrange(2 * i, 2 * i + 2), 16, 255)
}

/// Whether each pair of bytes spells a number in hexadecimal.
pub open spec fn all_pairs(bytes: Seq<u8>) -> bool {
    forall|i: int| 0 <= i < bytes.len() / 2 ==> #[trigger] hex_pair(bytes, i) is Some
}

/// What a text of hexadecimal pairs stands for.
pub open spec fn decoded_hex(text: Seq<char>) -> Result<Seq<u8>, ErrorView> {
    let bytes = vstd::utf8::encode_utf8(text);
    if bytes.len() % 2 != 0 {
        Err(protocol("resource contains odd-length hex"@))
    } else if !all_pairs(bytes) {
        Err(protocol("resource contains invalid hex"@))
    } else {
        Ok(Seq::new((bytes.len() / 2) as nat, |i: int| (hex_pair(bytes, i)->0) as u8))
    }
}

/// A byte result taken by its views.
pub open spec fn bytes_result(result: Result<Vec<u8>, AppError>) -> Result<Seq<u8>, ErrorView> {
    match result {
        Ok(bytes) => Ok(bytes@),
        Err(error) => Err(error.deep_view()),
    }
}

/// Decodes a text of hexadecimal pairs.
pub fn decode_hex(value: &str) -> (result: Result<Vec<u8>, AppError>)
    ensures
        bytes_result(result) == decoded_hex(value@),
{
    let bytes = value.as_bytes();
    if bytes.len() % 2 != 0 {
        return Err(AppError::Protocol("resource contains odd-length hex".to_owned()));
    }
    let mut decoded: Vec<u8> = Vec::new();
    let mut at: usize = 0;
    while at < bytes.len()
        invariant
            at <= bytes@.len(),
            bytes@ == vstd::utf8::encode_utf8(value@),
            bytes@.len() % 2 == 0,
            decoded@.len() * 2 == at,
            forall|i: int|
                0 <= i < decoded@.len() ==> #[trigger] hex_pair(bytes@, i) == Some(
                    decoded@[i] as nat,
                ),
        decreases bytes@.len() - at,
    {
        let pair = vstd::slice::slice_subrange(bytes, at, at + 2);
        let ghost position = decoded@.len() as int;
        assert(pair@ == bytes@.subrange(2 * position, 2 * position + 2));
        match parse_unsigned(pair, 16, 255) {
            None => {
                assert(hex_pair(bytes@, position) is None);
                return Err(AppError::Protocol("resource contains invalid hex".to_owned()));
            },
            Some(byte) => {
                decoded.push(byte as u8);
            },
        }
        at = at + 2;
    }
    assert(decoded@ =~= decoded_hex(value@)->Ok_0);
    Ok(decoded)
}

/// Whether a character is the hexadecimal digit for a value below sixteen, in either case.
pub open spec fn spells_digit(c: char, value: nat) -> bool {
    c == hex_digit(value) || value >= 10 && c == (55 + value) as char
}

/// Whether the pair of characters at position `i` spells a byte.
pub open spec fn spells_byte(text: Seq<char>, i: int, byte: u8) -> bool {
    spells_digit(text[2 * i], byte as nat / 16) && spells_digit(text[2 * i + 1], byte as nat % 16)
}

/// Whether a text spells bytes as consecutive hexadecimal pairs, each digit in either case.
pub open spec fn spells(text: Seq<char>, data: Seq<u8>) -> bool {
    &&& text.len() == 2 * data.len()
    &&& forall|i: int| 0 <= i < data.len() ==> #[trigger] spells_byte(text, i, data[i])
}

proof fn lemma_hex_digit(c: char, value: nat)
    requires
        value < 16,
        spells_digit(c, value),
    ensures
        crate::text::digit_value((c as u32) as u8, 16) == Some(value),
        (c as u32) < 128,
        (c as u32) as u8 != 43,
{
}

/// The lower-case spelling of bytes is a spelling of them.
proof fn lemma_hex_text(data: Seq<u8>)
    ensures
        spells(hex_bytes(data), data),
    decreases data.len(),
{
    if data.len() > 0 {
        let rest = data.drop_last();
        let text = hex_bytes(data);
        lemma_hex_text(rest);
        assert forall|i: int| 0 <= i < data.len() implies #[trigger] spells_byte(
            text,
            i,
            data[i],
        ) by {
            if i < rest.len() {
                assert(spells_byte(hex_bytes(rest), i, rest[i]));
                assert(text[2 * i] == hex_bytes(rest)[2 * i]);
                assert(text[2 * i + 1] == hex_bytes(rest)[2 * i + 1]);
            }
        }
    }
}

/// Decoding gives back what was spelled: every hexadecimal spelling of any bytes, with each
/// digit in either case, decodes to those bytes.
pub proof fn decoding_inverts_spelling(text: Seq<char>, data: Seq<u8>)
    ensures
        spells(text, data) ==> decoded_hex(text) == Ok::<Seq<u8>, ErrorView>(data),
        spells(hex_bytes(data), data),
{
    lemma_hex_text(data);
    if spells(text, data) {
        let bytes = vstd::utf8::encode_utf8(text);
        assert forall|k: int| 0 <= k < text.len() implies '\0' <= #[trigger] text[k]
            <= '\u{7f}' by {
            let i = k / 2;
            assert(spells_byte(text, i, data[i]));
            lemma_hex_digit(text[2 * i], data[i] as nat / 16);
            lemma_hex_digit(text[2 * i + 1], data[i] as nat % 16);
        }
        vstd::utf8::is_ascii_chars_encode_utf8(text);
        assert forall|i: int| 0 <= i < data.len() implies #[trigger] hex_pair(bytes, i) == Some(
            data[i] as nat,
        ) by {
            let high = data[i] as nat / 16;
            let low = data[i] as nat % 16;
            assert(spells_byte(text, i, data[i]));
            lemma_hex_digit(text[2 * i], high);
            lemma_hex_digit(text[2 * i + 1], low);
            let pair = bytes.subrange(2 * i, 2 * i + 2);
            assert(pair[0] == bytes[2 * i] && pair[1] == bytes[2 * i + 1]);
            assert(pair.drop_last().drop_last() =~= Seq::empty());
            assert(pair.drop_last().last() == pair[0]);
            reveal_with_fuel(crate::text::digits_value, 3);
            assert(crate::text::digits_value(pair, 16) == high * 16 + low);
        }
        assert(decoded_hex(text)->Ok_0 =~= data);
    }
}

/// The SHA-256 digest of a byte string.
pub uninterp spec fn sha256_digest(data: Seq<u8>) -> Seq<u8>;

/// `Sha256::digest` of the `sha2` crate: the digest is a function of the data, and is named
/// [`sha256_digest`]; how the data determine it is left unsaid.
#[verifier::external_body]
fn sha256(data: &[u8]) -> (digest: [u8; 32])
    ensures
        digest@ == sha256_digest(data@),
{
    Sha256::digest(data).into()
}

/// Whether a profile is the one that the gateware is built for.
pub open spec fn profile_valid(profile: Profile) -> bool {
    &&& profile.port@ == "A"@
    &&& profile.voltage == VOLTAGE_3V3
    &&& profile.rx@ == "A0"@
    &&& profile.tx@ == "A1"@
    &&& profile.data_bits == 8
    &&& profile.parity@ == "none"@
    &&& profile.stop_bits == 1
    &&& profile.flow_control@ == "none"@
    &&& !profile.inverted
}

/// Whether a register can be reached through the management interface.
pub open spec fn register_valid(register: Register) -> bool {
    &&& register.address <= 0x7f
    &&& 1 <= register.storage_bytes <= 4
    &&& 1 <= register.width_bits <= 32
    &&& register.endian@ == "little"@
    &&& (register.access@ == "ro"@ || register.access@ == "rw"@)
}

/// Whether all registers can be reached through the management interface.
pub open spec fn registers_valid(registers: Registers) -> bool {
    &&& register_valid(registers.baud_divisor)
    &&& register_valid(registers.rx_errors)
    &&& register_valid(registers.rx_overflow)
    &&& register_valid(registers.tx_state)
}

/// Whether an endpoint address names an IN endpoint.
pub open spec fn is_in_endpoint(endpoint: u8) -> bool {
    endpoint >= 0x80
}

/// Whether the pipe has an IN and an OUT endpoint with full-size packets.
pub open spec fn pipe_valid(pipe: Pipe) -> bool {
    &&& is_in_endpoint(pipe.rx.endpoint)
    &&& !is_in_endpoint(pipe.tx.endpoint)
    &&& pipe.rx.max_packet == 512
    &&& pipe.tx.max_packet == 512
}

/// Whether a manifest has the supported schema, revision, firmware and profile.
pub open spec fn header_valid(manifest: ResourceManifest, revision: Seq<char>) -> bool {
    &&& manifest.schema_version == 1
    &&& manifest.revision@ == revision
    &&& manifest.firmware.api_level == API_LEVEL
    &&& profile_valid(manifest.profile)
}

/// Whether a manifest describes the bitstream with the given digest for a revision.
pub open spec fn bitstream_valid(
    bitstream: Bitstream,
    revision: Seq<char>,
    digest: Seq<u8>,
) -> bool {
    bitstream.sha256@ == hex_bytes(digest) && bitstream.file@ == revision + ".bit"@
}

/// The verdict on a manifest, given the digest of the bitstream beside it: the bitstream
/// identifier, or the first mismatch.
pub open spec fn resource_verdict(
    manifest: ResourceManifest,
    revision: Seq<char>,
    digest: Seq<u8>,
) -> Result<Seq<u8>, ErrorView> {
    if !header_valid(manifest, revision) {
        Err(
            protocol(
                "embedded Glasgow resource schema, revision, firmware, or profile mismatch"@,
            ),
        )
    } else if !bitstream_valid(manifest.bitstream, revision, digest) {
        Err(protocol("embedded Glasgow bitstream digest mismatch"@))
    } else {
        match decoded_hex(manifest.bitstream.id@) {
            Err(error) => Err(error),
            Ok(id) => if id.len() != 8 {
                Err(protocol("Glasgow bitstream ID is not eight bytes"@))
            } else if !registers_valid(manifest.registers) {
                Err(protocol("embedded Glasgow register metadata mismatch"@))
            } else if !pipe_valid(manifest.pipe) {
                Err(protocol("embedded Glasgow pipe metadata mismatch"@))
            } else {
                Ok(id)
            },
        }
    }
}

/// The verdict on what was parsed of a manifest.
pub open spec fn parsed_verdict(
    manifest: Result<ResourceManifest, String>,
    revision: Seq<char>,
    digest: Seq<u8>,
) -> Result<(ResourceManifest, Seq<u8>), ErrorView> {
    match manifest {
        Err(reason) => Err(protocol("invalid embedded manifest: "@ + reason@)),
        Ok(manifest) => match resource_verdict(manifest, revision, digest) {
            Ok(id) => Ok((manifest, id)),
            Err(error) => Err(error),
        },
    }
}

/// A resource is accepted exactly where all of it is as the gateware needs it: its header,
/// the digest of its bitstream, an identifier of eight bytes, its registers and its pipe.
pub proof fn acceptance_covers_the_whole_resource(
    manifest: ResourceManifest,
    revision: Seq<char>,
    digest: Seq<u8>,
)
    ensures
        resource_verdict(manifest, revision, digest) is Ok <==> {
            &&& header_valid(manifest, revision)
            &&& bitstream_valid(manifest.bitstream, revision, digest)
            &&& decoded_hex(manifest.bitstream.id@) matches Ok(id) && id.len() == 8
            &&& registers_valid(manifest.registers)
            &&& pipe_valid(manifest.pipe)
        },
        resource_verdict(manifest, revision, digest) matches Ok(id) ==> decoded_hex(
            manifest.bitstream.id@,
        ) == Ok::<Seq<u8>, ErrorView>(id),
        resource_verdict(manifest, revision, digest) matches Err(error) ==> error.category
            == Category::Protocol,
{
}

/// A validation result taken by its views.
pub open spec fn validation_view(result: Result<(ResourceManifest, [u8; 8]), AppError>) -> Result<
    (ResourceManifest, Seq<u8>),
    ErrorView,
> {
    match result {
        Ok((manifest, id)) => Ok((manifest, id@)),
        Err(error) => Err(error.deep_view()),
    }
}

fn check_profile(profile: &Profile) -> (valid: bool)
    ensures
        valid == profile_valid(*profile),
{
    same_text(&profile.port, "A") && profile.voltage == VOLTAGE_3V3 && same_text(
        &profile.rx,
        "A0",
    ) && same_text(&profile.tx, "A1") && profile.data_bits == 8 && same_text(
        &profile.parity,
        "none",
    ) && profile.stop_bits == 1 && same_text(&profile.flow_control, "none") && !profile.inverted
}

fn check_register(register: &Register) -> (valid: bool)
    ensures
        valid == register_valid(*register),
{
    register.address <= 0x7f && register.storage_bytes != 0 && register.storage_bytes <= 4
        && register.width_bits != 0 && register.width_bits <= 32 && same_text(
        &register.endian,
        "little",
    ) && (same_text(&register.access, "ro") || same_text(&register.access, "rw"))
}

fn check_registers(registers: &Registers) -> (valid: bool)
    ensures
        valid == registers_valid(*registers),
{
    check_register(&registers.baud_divisor) && check_register(&registers.rx_errors)
        && check_register(&registers.rx_overflow) && check_register(&registers.tx_state)
}

fn check_header(manifest: &ResourceManifest, revision: &str) -> (valid: bool)
    ensures
        valid == header_valid(*manifest, revision@),
{
    manifest.schema_version == 1 && same_text(&manifest.revision, revision)
        && manifest.firmware.api_level == API_LEVEL && check_profile(&manifest.profile)
}

fn check_bitstream(bitstream: &Bitstream, revision: &str, digest: &[u8]) -> (valid: bool)
    ensures
        valid == bitstream_valid(*bitstream, revision@, digest@),
{
    let digest_text = hex_bytes_text(digest);
    let file = joined(revision, ".bit");
    same_text(&digest_text, &bitstream.sha256) && same_text(&bitstream.file, &file)
}

/// Decodes a bitstream identifier, which has eight bytes.
fn decode_id(id: &str) -> (result: Result<[u8; 8], AppError>)
    ensures
        match (result, decoded_hex(id@)) {
            (Err(error), Err(expected)) => error.deep_view() == expected,
            (Err(error), Ok(id)) => id.len() != 8 && error.deep_view() == protocol(
                "Glasgow bitstream ID is not eight bytes"@,
            ),
            (Ok(decoded), Ok(id)) => id.len() == 8 && decoded@ == id,
            (Ok(_), Err(_)) => false,
        },
{
    match decode_hex(id) {
        Ok(id) => {
            if id.len() != 8 {
                return Err(
                    AppError::Protocol("Glasgow bitstream ID is not eight bytes".to_owned()),
                );
            }
            let decoded: [u8; 8] = [id[0], id[1], id[2], id[3], id[4], id[5], id[6], id[7]];
            assert(decoded@ =~= id@);
            Ok(decoded)
        },
        Err(error) => Err(error),
    }
}

fn check_pipe(pipe: &Pipe) -> (valid: bool)
    ensures
        valid == pipe_valid(*pipe),
{
    let rx = pipe.rx.endpoint;
    let tx = pipe.tx.endpoint;
    assert((rx & 0x80 == 0) == (rx < 0x80)) by (bit_vector);
    assert((tx & 0x80 == 0) == (tx < 0x80)) by (bit_vector);
    !(rx & 0x80 == 0 || tx & 0x80 != 0 || pipe.rx.max_packet != 512 || pipe.tx.max_packet != 512)
}

/// Checks a manifest against a revision and the digest of the bitstream beside it.
pub fn check_resource(
    revision: &str,
    manifest: Result<ResourceManifest, String>,
    digest: &[u8],
) -> (result: Result<(ResourceManifest, [u8; 8]), AppError>)
    ensures
        validation_view(result) == parsed_verdict(manifest, revision@, digest@),
{
    let manifest = match manifest {
        Ok(manifest) => manifest,
        Err(reason) => {
            return Err(AppError::Protocol(joined("invalid embedded manifest: ", &reason)));
        },
    };
    if !check_header(&manifest, revision) {
        return Err(
            AppError::Protocol(
                "embedded Glasgow resource schema, revision, firmware, or profile mismatch".to_owned(),
            ),
        );
    }
    if !check_bitstream(&manifest.bitstream, revision, digest) {
        return Err(AppError::Protocol("embedded Glasgow bitstream digest mismatch".to_owned()));
    }
    let bitstream_id = match decode_id(&manifest.bitstream.id) {
        Ok(id) => id,
        Err(error) => {
            return Err(error);
        },
    };
    if !check_registers(&manifest.registers) {
        return Err(AppError::Protocol("embedded Glasgow register metadata mismatch".to_owned()));
    }
    if !check_pipe(&manifest.pipe) {
        return Err(AppError::Protocol("embedded Glasgow pipe metadata mismatch".to_owned()));
    }
    Ok((manifest, bitstream_id))
}

/// Checks what was parsed of a manifest against a revision and the bitstream beside it.
pub fn validate_resource_data(
    revision: &str,
    manifest: Result<ResourceManifest, String>,
    bitstream: &[u8],
) -> (result: Result<(ResourceManifest, [u8; 8]), AppError>)
    ensures
        validation_view(result) == parsed_verdict(
            manifest,
            revision@,
            sha256_digest(bitstream@),
        ),
{
    let digest = sha256(bitstream);
    check_resource(revision, manifest, vstd::array::array_as_slice(&digest))
}

/// The upstream commit that packaged resources are built from.
pub open spec fn pinned_commit() -> Seq<char> {
    "b2a15e9c797b90167d96257a557218ddb7984e71"@
}

/// Whether a manifest describes a resource that is built from the pinned upstream commit.
pub fn is_pinned(manifest: &ResourceManifest) -> (pinned: bool)
    ensures
        pinned == (manifest.upstream_commit@ == pinned_commit()),
{
    same_text(&manifest.upstream_commit, "b2a15e9c797b90167d96257a557218ddb7984e71")
}

/// The error for a revision without a resource.
pub open spec fn unsupported_revision(revision: Seq<char>) -> ErrorView {
    protocol(
        "Glasgow revision "@ + revision + " is unsupported; expected C0, C1, C2, or C3"@,
    )
}

/// Finds the embedded resource for a revision.
pub fn find_resource<'a>(resources: &'a [GlasgowResource], revision: &str) -> (result: Result<
    &'a GlasgowResource,
    AppError,
>)
    ensures
        match result {
            Ok(resource) => supported_stepping(revision@) && exists|at: int| #[trigger]
                first_for(resources@, revision@, at) && resources@[at] == *resource,
            Err(error) => unsupported(resources@, revision@) && error.deep_view()
                == unsupported_revision(revision@),
        },
{
    match for_revision(resources, revision) {
        Some(resource) => Ok(resource),
        None => Err(unsupported_error(revision)),
    }
}

fn unsupported_error(revision: &str) -> (error: AppError)
    ensures
        error.deep_view() == unsupported_revision(revision@),
{
    let mut message = joined("Glasgow revision ", revision);
    message.append(" is unsupported; expected C0, C1, C2, or C3");
    AppError::Protocol(message)
}

/// The verdict on an embedded resource for a revision: it is for that revision, which is a
/// supported stepping, and what was parsed of its manifest is in order.
pub open spec fn embedded_verdict(
    revision: Seq<char>,
    embedded: GlasgowResource,
    manifest: Result<ResourceManifest, String>,
) -> Result<(ResourceManifest, Seq<u8>), ErrorView> {
    if !supported_stepping(revision) || embedded.revision@ != revision {
        Err(unsupported_revision(revision))
    } else {
        parsed_verdict(manifest, revision, sha256_digest(embedded.bitstream@))
    }
}

/// Checks the embedded resource for a revision, given what was parsed of its manifest.
pub fn validate_resource(
    revision: &str,
    embedded: &GlasgowResource,
    manifest: Result<ResourceManifest, String>,
) -> (result: Result<ValidatedResource, AppError>)
    ensures
        match (result, embedded_verdict(revision@, *embedded, manifest)) {
            (Ok(resource), Ok((manifest, id))) => {
                &&& resource.embedded == *embedded
                &&& resource.manifest == manifest
                &&& resource.bitstream_id@ == id
            },
            (Err(error), Err(expected)) => error.deep_view() == expected,
            _ => false,
        },
{
    if !is_supported(revision) || !same_text(embedded.revision, revision) {
        return Err(unsupported_error(revision));
    }
    match validate_resource_data(revision, manifest, embedded.bitstream) {
        Ok((manifest, bitstream_id)) => Ok(
            ValidatedResource { embedded: *embedded, manifest, bitstream_id },
        ),
        Err(error) => Err(error),
    }
}

/// Whether a register has an address that the management interface reaches, a width of one to
/// four bytes and up to 32 bits, its least significant byte first, and can be read.
pub open spec fn reachable(register: Register) -> bool {
    &&& register.address < 0x80
    &&& 1 <= register.storage_bytes && register.storage_bytes <= 4
    &&& 1 <= register.width_bits && register.width_bits <= 32
    &&& register.endian@ == "little"@
    &&& register.access@ == "ro"@ || register.access@ == "rw"@
}

/// A resource is accepted exactly where it fits the gateware, attribute by attribute: eight data
/// bits without parity, one stop bit, no flow control, nothing inverted, at pins A0 and A1 of
/// port A at 3.3 V; firmware of level nine; the bitstream that is named after the revision and has
/// the digest that is written down; an identifier of eight bytes; four registers that can be
/// reached; and a pipe of an IN and an OUT endpoint with packets of 512 bytes.
pub proof fn accepted_resources_fit(
    manifest: ResourceManifest,
    revision: Seq<char>,
    digest: Seq<u8>,
)
    ensures
        resource_verdict(manifest, revision, digest) is Ok <==> {
            &&& manifest.schema_version == 1
            &&& manifest.revision@ == revision
            &&& manifest.firmware.api_level == 9
            &&& manifest.profile.port@ == "A"@
            &&& manifest.profile.voltage == 0x400a_6666_6666_6666
            &&& manifest.profile.rx@ == "A0"@
            &&& manifest.profile.tx@ == "A1"@
            &&& manifest.profile.data_bits == 8
            &&& manifest.profile.parity@ == "none"@
            &&& manifest.profile.stop_bits == 1
            &&& manifest.profile.flow_control@ == "none"@
            &&& !manifest.profile.inverted
            &&& manifest.bitstream.file@ == revision + ".bit"@
            &&& manifest.bitstream.sha256@ == hex_bytes(digest)
            &&& decoded_hex(manifest.bitstream.id@) matches Ok(id) && id.len() == 8
            &&& reachable(manifest.registers.baud_divisor)
            &&& reachable(manifest.registers.rx_errors)
            &&& reachable(manifest.registers.rx_overflow)
            &&& reachable(manifest.registers.tx_state)
            &&& manifest.pipe.rx.endpoint >= 0x80
            &&& manifest.pipe.tx.endpoint < 0x80
            &&& manifest.pipe.rx.max_packet == 512
            &&& manifest.pipe.tx.max_packet == 512
        },
{
}

/// Only the four steppings of revision C are supported, by the resource that is for them.
pub proof fn only_revision_c_is_supported(
    revision: Seq<char>,
    embedded: GlasgowResource,
    manifest: Result<ResourceManifest, String>,
)
    ensures
        embedded_verdict(revision, embedded, manifest) is Ok ==> {
            &&& revision.len() == 2
            &&& revision[0] == 'C'
            &&& '0' <= revision[1] && revision[1] <= '3'
            &&& embedded.revision@ == revision
            &&& manifest is Ok
            &&& resource_verdict(
                manifest->Ok_0,
                revision,
                sha256_digest(embedded.bitstream@),
            ) is Ok
        },
        revision.len() == 2 && revision[0] == 'C' && '0' <= revision[1] && revision[1] <= '3'
            ==> supported_stepping(revision),
{
    reveal_strlit("C0");
    reveal_strlit("C1");
    reveal_strlit("C2");
    reveal_strlit("C3");
    if revision.len() == 2 && revision[0] == 'C' && '0' <= revision[1] && revision[1] <= '3' {
        assert(revision[1] == '0' || revision[1] == '1' || revision[1] == '2' || revision[1]
            == '3');
        assert(revision =~= "C0"@ || revision =~= "C1"@ || revision =~= "C2"@ || revision
            =~= "C3"@);
    }
}

}
