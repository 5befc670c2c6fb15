use vstd::prelude::*;

use crate::checksum::{crc16, crc16_of, lemma_crc16_detects_byte_change, lemma_lrc8_detects_byte_change, lrc8, lrc8_of};
use crate::modbus::enums::DriverType;
use crate::modbus::file_record::{be16, be16_at, lemma_be16_round_trip};
use crate::modbus::modbus_pdu::{lemma_pdu_bytes_len, lemma_pdu_round_trip, parse_pdu, pdu_bytes, pdu_fits, ModbusPDU, ModbusPDUOption, PduModel};
use crate::read_buffer::ReadBuffer;
use crate::write_buffer::WriteBuffer;
use crate::{DecodeError, EncodeError, Endianess, Message};

verus! {
/// What a frame is: the framing fields of its transport and the message it carries.
pub enum AduModel {
    Tcp { transaction_identifier: u16, protocol_identifier: u16, unit_identifier: u8, pdu: PduModel },
    Rtu { address: u8, pdu: PduModel },
    Ascii { address: u8, pdu: PduModel },
}

/// A CRC-16 trailer: low byte first.
pub open spec fn crc_trailer(c: u16) -> Seq<u8> {
    seq![(c % 256) as u8, (c / 256) as u8]
}

/// The wire bytes of a frame. A TCP frame is the transaction identifier, the protocol
/// identifier, the unit identifier and the message. A serial frame is the address and
/// the message, followed by the checksum of both.
pub open spec fn adu_bytes(f: AduModel) -> Seq<u8> {
    match f {
        AduModel::Tcp { transaction_identifier, protocol_identifier, unit_identifier, pdu } => be16(
            transaction_identifier,
        ) + be16(protocol_identifier) + seq![unit_identifier] + pdu_bytes(pdu),
        AduModel::Rtu { address, pdu } => {
            let b = seq![address] + pdu_bytes(pdu);
            b + crc_trailer(crc16_of(b))
        },
        AduModel::Ascii { address, pdu } => {
            let b = seq![address] + pdu_bytes(pdu);
            b.push(lrc8_of(b))
        },
    }
}

pub open spec fn adu_pdu(f: AduModel) -> PduModel {
    match f {
        AduModel::Tcp { pdu, .. } => pdu,
        AduModel::Rtu { pdu, .. } => pdu,
        AduModel::Ascii { pdu, .. } => pdu,
    }
}

/// The frame can be written and read back: its message fits, and a TCP frame's protocol
/// identifier holds its fixed value 0.
pub open spec fn adu_fits(f: AduModel) -> bool {
    &&& pdu_fits(adu_pdu(f))
    &&& f matches AduModel::Tcp { protocol_identifier, .. } ==> protocol_identifier == 0
}

/// The transport a frame belongs to.
pub open spec fn adu_driver(f: AduModel) -> DriverType {
    match f {
        AduModel::Tcp { .. } => DriverType::MODBUS_TCP,
        AduModel::Rtu { .. } => DriverType::MODBUS_RTU,
        AduModel::Ascii { .. } => DriverType::MODBUS_ASCII,
    }
}

/// The message's direction, where it has one.
pub open spec fn pdu_direction_is(m: PduModel, response: bool) -> bool {
    m matches PduModel::Message { response: r, .. } ==> r == response
}

/// Decodes a TCP frame from the front of `s`.
pub open spec fn parse_tcp(s: Seq<u8>, response: bool) -> Result<(AduModel, nat), DecodeError> {
    if s.len() < 4 {
        Err(DecodeError::TruncatedInput)
    } else if be16_at(s, 2) != 0 {
        Err(DecodeError::InvalidConstant)
    } else if s.len() < 5 {
        Err(DecodeError::TruncatedInput)
    } else {
        match parse_pdu(s.subrange(5, s.len() as int), response) {
            Ok((m, n)) => Ok(
                (
                    AduModel::Tcp {
                        transaction_identifier: be16_at(s, 0),
                        protocol_identifier: 0,
                        unit_identifier: s[4],
                        pdu: m,
                    },
                    n + 5,
                ),
            ),
            Err(e) => Err(e),
        }
    }
}

/// Decodes the address and message of a serial frame whose checksum has been checked:
/// the message must take every byte after the address.
pub open spec fn parse_serial_body_of(b: Seq<u8>, response: bool) -> Result<(u8, PduModel), DecodeError> {
    match parse_pdu(b.subrange(1, b.len() as int), response) {
        Ok((m, n)) => if n + 1 == b.len() {
            Ok((b[0], m))
        } else {
            Err(DecodeError::LengthMismatch)
        },
        Err(e) => Err(e),
    }
}

/// Decodes an RTU frame that is all of `s`: the checksum is checked first.
pub open spec fn parse_rtu(s: Seq<u8>, response: bool) -> Result<AduModel, DecodeError> {
    if s.len() < 3 {
        Err(DecodeError::TruncatedInput)
    } else {
        let b = s.subrange(0, s.len() - 2);
        if crc16_of(b) != s[s.len() - 2] + 256 * s[s.len() - 1] {
            Err(DecodeError::ChecksumMismatch)
        } else {
            match parse_serial_body_of(b, response) {
                Ok((address, m)) => Ok(AduModel::Rtu { address, pdu: m }),
                Err(e) => Err(e),
            }
        }
    }
}

/// Decodes an ASCII frame (its byte layer) that is all of `s`: the checksum is checked
/// first.
pub open spec fn parse_ascii(s: Seq<u8>, response: bool) -> Result<AduModel, DecodeError> {
    if s.len() < 2 {
        Err(DecodeError::TruncatedInput)
    } else {
        let b = s.subrange(0, s.len() - 1);
        if lrc8_of(b) != s[s.len() - 1] {
            Err(DecodeError::ChecksumMismatch)
        } else {
            match parse_serial_body_of(b, response) {
                Ok((address, m)) => Ok(AduModel::Ascii { address, pdu: m }),
                Err(e) => Err(e),
            }
        }
    }
}

/// A TCP frame that fits is decoded back from its bytes, whatever follows them.
pub proof fn lemma_tcp_round_trip(f: AduModel, tail: Seq<u8>, response: bool)
    requires
        f is Tcp,
        adu_fits(f),
        pdu_direction_is(adu_pdu(f), response),
    ensures
        parse_tcp(adu_bytes(f) + tail, response) == Ok::<(AduModel, nat), DecodeError>((f, adu_bytes(f).len())),
{
    if let AduModel::Tcp { transaction_identifier, protocol_identifier, unit_identifier, pdu } = f {
        let s = adu_bytes(f) + tail;
        lemma_be16_round_trip(transaction_identifier);
        lemma_be16_round_trip(protocol_identifier);
        assert(s[0] == be16(transaction_identifier)[0] && s[1] == be16(transaction_identifier)[1]);
        assert(s[2] == be16(protocol_identifier)[0] && s[3] == be16(protocol_identifier)[1]);
        assert(s[4] == unit_identifier);
        assert(s.subrange(5, s.len() as int) =~= pdu_bytes(pdu) + tail);
        lemma_pdu_round_trip(pdu, tail, response);
    }
}

/// An RTU frame that fits is decoded back from its bytes.
pub proof fn lemma_rtu_round_trip(address: u8, pdu: PduModel, response: bool)
    requires
        pdu_fits(pdu),
        pdu_direction_is(pdu, response),
    ensures
        parse_rtu(adu_bytes(AduModel::Rtu { address, pdu }), response) == Ok::<AduModel, DecodeError>(
            AduModel::Rtu { address, pdu },
        ),
{
    let b = seq![address] + pdu_bytes(pdu);
    let s = b + crc_trailer(crc16_of(b));
    assert(s.subrange(0, s.len() - 2) =~= b);
    assert(b.subrange(1, b.len() as int) =~= pdu_bytes(pdu) + Seq::<u8>::empty());
    lemma_pdu_round_trip(pdu, Seq::empty(), response);
}

/// An ASCII frame that fits is decoded back from its bytes.
pub proof fn lemma_ascii_round_trip(address: u8, pdu: PduModel, response: bool)
    requires
        pdu_fits(pdu),
        pdu_direction_is(pdu, response),
    ensures
        parse_ascii(adu_bytes(AduModel::Ascii { address, pdu }), response) == Ok::<AduModel, DecodeError>(
            AduModel::Ascii { address, pdu },
        ),
{
    let b = seq![address] + pdu_bytes(pdu);
    let s = b.push(lrc8_of(b));
    assert(s.subrange(0, s.len() - 1) =~= b);
    assert(b.subrange(1, b.len() as int) =~= pdu_bytes(pdu) + Seq::<u8>::empty());
    lemma_pdu_round_trip(pdu, Seq::empty(), response);
}

/// Flipping bits in any one byte of an RTU frame whose checksum matches, whether in the
/// address, the message or the checksum itself, makes decoding fail with a checksum
/// mismatch.
pub proof fn lemma_rtu_detects_corruption(s: Seq<u8>, j: int, x: u8, response: bool)
    requires
        s.len() >= 3,
        crc16_of(s.subrange(0, s.len() - 2)) == s[s.len() - 2] + 256 * s[s.len() - 1],
        0 <= j < s.len(),
        x != 0,
    ensures
        parse_rtu(s.update(j, s[j] ^ x), response) == Err::<AduModel, DecodeError>(DecodeError::ChecksumMismatch),
{
    let t = s.update(j, s[j] ^ x);
    let n = s.len();
    let b = s.subrange(0, n - 2);
    let a = s[j];
    assert(a ^ x != a) by (bit_vector)
        requires
            x != 0,
    ;
    if j < n - 2 {
        assert(t.subrange(0, n - 2) =~= b.update(j, b[j] ^ x));
        lemma_crc16_detects_byte_change(b, j, x);
    } else {
        assert(t.subrange(0, n - 2) =~= b);
        let lo = s[n - 2] as int;
        let hi = s[n - 1] as int;
        let lo2 = t[n - 2] as int;
        let hi2 = t[n - 1] as int;
        assert(lo2 + 256 * hi2 != lo + 256 * hi);
    }
}

/// Flipping bits in any one byte of an ASCII frame whose checksum matches, whether in the
/// address, the message or the checksum itself, makes decoding fail with a checksum
/// mismatch.
pub proof fn lemma_ascii_detects_corruption(s: Seq<u8>, j: int, x: u8, response: bool)
    requires
        s.len() >= 2,
        lrc8_of(s.subrange(0, s.len() - 1)) == s[s.len() - 1],
        0 <= j < s.len(),
        x != 0,
    ensures
        parse_ascii(s.update(j, s[j] ^ x), response) == Err::<AduModel, DecodeError>(DecodeError::ChecksumMismatch),
{
    let t = s.update(j, s[j] ^ x);
    let n = s.len();
    let b = s.subrange(0, n - 1);
    let a = s[j];
    assert(a ^ x != a) by (bit_vector)
        requires
            x != 0,
    ;
    if j < n - 1 {
        assert(t.subrange(0, n - 1) =~= b.update(j, b[j] ^ x));
        lemma_lrc8_detects_byte_change(b, j, x);
    } else {
        assert(t.subrange(0, n - 1) =~= b);
    }
}

/// Corrupting any one byte of an encoded RTU frame makes decoding fail with a checksum
/// mismatch.
pub proof fn lemma_encoded_rtu_detects_corruption(address: u8, pdu: PduModel, j: int, x: u8, response: bool)
    requires
        0 <= j < adu_bytes(AduModel::Rtu { address, pdu }).len(),
        x != 0,
    ensures
        ({
            let s = adu_bytes(AduModel::Rtu { address, pdu });
            parse_rtu(s.update(j, s[j] ^ x), response) == Err::<AduModel, DecodeError>(DecodeError::ChecksumMismatch)
        }),
{
    let b = seq![address] + pdu_bytes(pdu);
    let s = adu_bytes(AduModel::Rtu { address, pdu });
    assert(s.subrange(0, s.len() - 2) =~= b);
    lemma_rtu_detects_corruption(s, j, x, response);
}

/// Corrupting any one byte of an encoded ASCII frame makes decoding fail with a checksum
/// mismatch.
pub proof fn lemma_encoded_ascii_detects_corruption(address: u8, pdu: PduModel, j: int, x: u8, response: bool)
    requires
        0 <= j < adu_bytes(AduModel::Ascii { address, pdu }).len(),
        x != 0,
    ensures
        ({
            let s = adu_bytes(AduModel::Ascii { address, pdu });
            parse_ascii(s.update(j, s[j] ^ x), response) == Err::<AduModel, DecodeError>(DecodeError::ChecksumMismatch)
        }),
{
    let b = seq![address] + pdu_bytes(pdu);
    let s = adu_bytes(AduModel::Ascii { address, pdu });
    assert(s.subrange(0, s.len() - 1) =~= b);
    lemma_ascii_detects_corruption(s, j, x, response);
}

/// Decodes a frame of the given transport from `s`: a TCP frame from the front of `s`,
/// a serial frame from all of it. On success, the frame and the number of bytes it took.
pub open spec fn parse_adu(s: Seq<u8>, driver_type: DriverType, response: bool) -> Result<(AduModel, nat), DecodeError> {
    match driver_type {
        DriverType::MODBUS_TCP => parse_tcp(s, response),
        DriverType::MODBUS_RTU => match parse_rtu(s, response) {
            Ok(f) => Ok((f, s.len())),
            Err(e) => Err(e),
        },
        DriverType::MODBUS_ASCII => match parse_ascii(s, response) {
            Ok(f) => Ok((f, s.len())),
            Err(e) => Err(e),
        },
    }
}

/// Every frame that fits is decoded back from its bytes, given its transport and the
/// direction of its message.
pub proof fn lemma_adu_round_trip(f: AduModel, response: bool)
    requires
        adu_fits(f),
        pdu_direction_is(adu_pdu(f), response),
    ensures
        parse_adu(adu_bytes(f), adu_driver(f), response) == Ok::<(AduModel, nat), DecodeError>(
            (f, adu_bytes(f).len()),
        ),
{
    match f {
        AduModel::Tcp { .. } => {
            lemma_tcp_round_trip(f, Seq::empty(), response);
            assert(adu_bytes(f) + Seq::<u8>::empty() =~= adu_bytes(f));
        },
        AduModel::Rtu { address, pdu } => lemma_rtu_round_trip(address, pdu, response),
        AduModel::Ascii { address, pdu } => lemma_ascii_round_trip(address, pdu, response),
    }
}

/// A Modbus TCP frame.
#[derive(Clone, PartialEq, Eq, Debug)]
pub struct ModbusTcpADU {
    /// Pairs a response with its request; the server copies it.
    pub transaction_identifier: u16,
    /// Always 0 for Modbus.
    pub protocol_identifier: u16,
    /// Routes the message behind a gateway.
    pub unit_identifier: u8,
    pub pdu: ModbusPDU,
}

/// The direction a TCP frame's message is decoded in.
#[derive(Clone, Copy, PartialEq, Eq, Debug, Structural)]
pub struct ModbusTcpADUOptions {
    pub response: bool,
}

impl View for ModbusTcpADU {
    type V = AduModel;

    open spec fn view(&self) -> AduModel {
        AduModel::Tcp {
            transaction_identifier: self.transaction_identifier,
            protocol_identifier: self.protocol_identifier,
            unit_identifier: self.unit_identifier,
            pdu: self.pdu@,
        }
    }
}

impl ModbusTcpADU {
    /// The byte count of the unit identifier and the message, as the MBAP header states it.
    pub fn length(&self) -> (r: u16)
        requires
            pdu_fits(self.pdu@),
            pdu_bytes(self.pdu@).len() + 1 <= 0xFFFF,
        ensures
            r == pdu_bytes(self.pdu@).len() + 1,
    {
        (self.pdu.get_length_in_bytes() + 1) as u16
    }
}

/// Checks the checksum-free part of a serial frame and decodes its address and message;
/// the message must take every byte after the address.
fn parse_serial_body(body: &[u8], response: bool) -> (r: Result<(u8, ModbusPDU), DecodeError>)
    requires
        body@.len() >= 1,
    ensures
        match parse_serial_body_of(body@, response) {
            Ok((a, m)) => r is Ok && r->Ok_0.0 == a && r->Ok_0.1@ == m,
            Err(e) => r == Err::<(u8, ModbusPDU), DecodeError>(e),
        },
{
    let mut inner = ReadBuffer::new(Endianess::BigEndian, body);
    let address = inner.read_u8()?;
    assert(inner.rest() =~= body@.subrange(1, body@.len() as int));
    let pdu = ModbusPDU::parse(&mut inner, ModbusPDUOption { bit_response: response })?;
    if inner.remaining() != 0 {
        return Err(DecodeError::LengthMismatch);
    }
    Ok((address, pdu))
}

/// A Modbus RTU frame; its CRC-16 is computed when written and checked when read.
#[derive(Clone, PartialEq, Eq, Debug)]
pub struct ModbusRtuADU {
    pub address: u8,
    pub pdu: ModbusPDU,
}

/// The direction an RTU frame's message is decoded in.
#[derive(Clone, Copy, PartialEq, Eq, Debug, Structural)]
pub struct ModbusRtuADUOptions {
    pub response: bool,
}

impl View for ModbusRtuADU {
    type V = AduModel;

    open spec fn view(&self) -> AduModel {
        AduModel::Rtu { address: self.address, pdu: self.pdu@ }
    }
}

/// The byte layer of a Modbus ASCII frame; its LRC is computed when written and checked
/// when read.
#[derive(Clone, PartialEq, Eq, Debug)]
pub struct ModbusAsciiADU {
    pub address: u8,
    pub pdu: ModbusPDU,
}

/// The direction an ASCII frame's message is decoded in.
#[derive(Clone, Copy, PartialEq, Eq, Debug, Structural)]
pub struct ModbusAsciiADUOptions {
    pub response: bool,
}

impl View for ModbusAsciiADU {
    type V = AduModel;

    open spec fn view(&self) -> AduModel {
        AduModel::Ascii { address: self.address, pdu: self.pdu@ }
    }
}

/// A frame of one of the three transports.
#[derive(Clone, PartialEq, Eq, Debug)]
pub enum ModbusADU {
    ModbusTcpADU(ModbusTcpADU),
    ModbusRtuADU(ModbusRtuADU),
    ModbusAsciiADU(ModbusAsciiADU),
}

/// What decoding a frame needs to know: its transport and its message's direction.
#[derive(Clone, Copy, PartialEq, Eq, Debug, Structural)]
pub struct ModbusADUOptions {
    pub driver_type: DriverType,
    pub response: bool,
}

impl View for ModbusADU {
    type V = AduModel;

    open spec fn view(&self) -> AduModel {
        match self {
            ModbusADU::ModbusTcpADU(f) => f@,
            ModbusADU::ModbusRtuADU(f) => f@,
            ModbusADU::ModbusAsciiADU(f) => f@,
        }
    }
}

impl Message for ModbusADU {
    type P = ModbusADUOptions;

    open spec fn encodable(&self) -> bool {
        adu_fits(self@)
    }

    open spec fn encoding(&self) -> Seq<u8> {
        adu_bytes(self@)
    }

    open spec fn decoded(rest: Seq<u8>, parameter: ModbusADUOptions, r: Result<ModbusADU, DecodeError>, n: int) -> bool {
        match parse_adu(rest, parameter.driver_type, parameter.response) {
            Ok((f, k)) => r is Ok && r->Ok_0@ == f && n == k,
            Err(e) => r == Err::<ModbusADU, DecodeError>(e),
        }
    }

    fn get_length_in_bits(&self) -> (r: u32)
    {
        match self {
            ModbusADU::ModbusTcpADU(f) => f.get_length_in_bits(),
            ModbusADU::ModbusRtuADU(f) => f.get_length_in_bits(),
            ModbusADU::ModbusAsciiADU(f) => f.get_length_in_bits(),
        }
    }

    fn serialize(&self, writer: &mut WriteBuffer) -> (r: Result<usize, EncodeError>)
    {
        match self {
            ModbusADU::ModbusTcpADU(f) => f.serialize(writer),
            ModbusADU::ModbusRtuADU(f) => f.serialize(writer),
            ModbusADU::ModbusAsciiADU(f) => f.serialize(writer),
        }
    }

    fn parse(reader: &mut ReadBuffer, parameter: ModbusADUOptions) -> (r: Result<ModbusADU, DecodeError>)
    {
        match parameter.driver_type {
            DriverType::MODBUS_TCP => {
                let f = ModbusTcpADU::parse(reader, ModbusTcpADUOptions { response: parameter.response })?;
                Ok(ModbusADU::ModbusTcpADU(f))
            },
            DriverType::MODBUS_RTU => {
                let f = ModbusRtuADU::parse(reader, ModbusRtuADUOptions { response: parameter.response })?;
                Ok(ModbusADU::ModbusRtuADU(f))
            },
            DriverType::MODBUS_ASCII => {
                let f = ModbusAsciiADU::parse(reader, ModbusAsciiADUOptions { response: parameter.response })?;
                Ok(ModbusADU::ModbusAsciiADU(f))
            },
        }
    }
}

impl Message for ModbusTcpADU {
    type P = ModbusTcpADUOptions;

    open spec fn encodable(&self) -> bool {
        adu_fits(self@)
    }

    open spec fn encoding(&self) -> Seq<u8> {
        adu_bytes(self@)
    }

    open spec fn decoded(rest: Seq<u8>, parameter: ModbusTcpADUOptions, r: Result<ModbusTcpADU, DecodeError>, n: int) -> bool {
        match parse_tcp(rest, parameter.response) {
            Ok((f, k)) => r is Ok && r->Ok_0@ == f && n == k,
            Err(e) => r == Err::<ModbusTcpADU, DecodeError>(e),
        }
    }

    fn get_length_in_bits(&self) -> (r: u32)
    {
        assert(self.encodable() && self.encoding() == adu_bytes(self@));
        assert(adu_fits(self@) && adu_pdu(self@) == self.pdu@);
        proof {
            lemma_pdu_bytes_len(self.pdu@);
            assert(self.pdu.encodable() && self.pdu.encoding() == pdu_bytes(self.pdu@));
        }
        40 + self.pdu.get_length_in_bits()
    }

    fn serialize(&self, writer: &mut WriteBuffer) -> (r: Result<usize, EncodeError>)
    {
        if self.protocol_identifier != 0 || !self.pdu.fits() {
            return Err(EncodeError::ValueOutOfRange);
        }
        let ghost start = writer.writer@;
        writer.write_u16(self.transaction_identifier);
        writer.write_u16(self.protocol_identifier);
        writer.write_u8(self.unit_identifier);
        let n = self.pdu.serialize(writer);
        assert(writer.writer@ =~= start + adu_bytes(self@));
        proof {
            lemma_pdu_bytes_len(self.pdu@);
        }
        match n {
            Ok(k) => Ok(5 + k),
            Err(e) => Err(e),
        }
    }

    fn parse(reader: &mut ReadBuffer, parameter: ModbusTcpADUOptions) -> (r: Result<ModbusTcpADU, DecodeError>)
    {
        let ghost s = reader.rest();
        if reader.remaining() < 4 {
            return Err(DecodeError::TruncatedInput);
        }
        let transaction_identifier = reader.read_u16()?;
        let protocol_identifier = reader.read_u16()?;
        if protocol_identifier != 0 {
            return Err(DecodeError::InvalidConstant);
        }
        let unit_identifier = reader.read_u8()?;
        assert(reader.rest() =~= s.subrange(5, s.len() as int));
        let pdu = ModbusPDU::parse(reader, ModbusPDUOption { bit_response: parameter.response })?;
        Ok(ModbusTcpADU { transaction_identifier, protocol_identifier, unit_identifier, pdu })
    }
}

impl Message for ModbusRtuADU {
    type P = ModbusRtuADUOptions;

    open spec fn encodable(&self) -> bool {
        adu_fits(self@)
    }

    open spec fn encoding(&self) -> Seq<u8> {
        adu_bytes(self@)
    }

    open spec fn decoded(rest: Seq<u8>, parameter: ModbusRtuADUOptions, r: Result<ModbusRtuADU, DecodeError>, n: int) -> bool {
        match parse_rtu(rest, parameter.response) {
            Ok(f) => r is Ok && r->Ok_0@ == f && n == rest.len(),
            Err(e) => r == Err::<ModbusRtuADU, DecodeError>(e),
        }
    }

    fn get_length_in_bits(&self) -> (r: u32)
    {
        assert(self.encodable() && self.encoding() == adu_bytes(self@));
        assert(adu_fits(self@) && adu_pdu(self@) == self.pdu@);
        assert(self.encoding() =~= seq![self.address] + pdu_bytes(self.pdu@) + crc_trailer(
            crc16_of(seq![self.address] + pdu_bytes(self.pdu@)),
        ));
        proof {
            lemma_pdu_bytes_len(self.pdu@);
            assert(self.pdu.encodable() && self.pdu.encoding() == pdu_bytes(self.pdu@));
        }
        24 + self.pdu.get_length_in_bits()
    }

    fn serialize(&self, writer: &mut WriteBuffer) -> (r: Result<usize, EncodeError>)
    {
        if !self.pdu.fits() {
            return Err(EncodeError::ValueOutOfRange);
        }
        let ghost start = writer.writer@;
        let from = writer.writer.len();
        writer.write_u8(self.address);
        let _ = self.pdu.serialize(writer);
        let to = writer.writer.len();
        let framed = vstd::slice::slice_subrange(writer.writer.as_slice(), from, to);
        assert(framed@ =~= seq![self.address] + pdu_bytes(self.pdu@));
        let c = crc16(framed);
        writer.write_u8((c % 256) as u8);
        writer.write_u8((c / 256) as u8);
        assert(writer.writer@ =~= start + adu_bytes(self@));
        proof {
            lemma_pdu_bytes_len(self.pdu@);
        }
        Ok(to - from + 2)
    }

    fn parse(reader: &mut ReadBuffer, parameter: ModbusRtuADUOptions) -> (r: Result<ModbusRtuADU, DecodeError>)
    {
        let start = reader.position;
        let len = reader.data.len();
        if len - start < 3 {
            return Err(DecodeError::TruncatedInput);
        }
        let end = len - 2;
        let body = vstd::slice::slice_subrange(reader.data.as_slice(), start, end);
        assert(body@ =~= reader.rest().subrange(0, reader.rest().len() - 2));
        let expected: u16 = reader.data[end] as u16 + 256 * reader.data[end + 1] as u16;
        if crc16(body) != expected {
            return Err(DecodeError::ChecksumMismatch);
        }
        let (address, pdu) = parse_serial_body(body, parameter.response)?;
        reader.position = len;
        Ok(ModbusRtuADU { address, pdu })
    }
}

impl Message for ModbusAsciiADU {
    type P = ModbusAsciiADUOptions;

    open spec fn encodable(&self) -> bool {
        adu_fits(self@)
    }

    open spec fn encoding(&self) -> Seq<u8> {
        adu_bytes(self@)
    }

    open spec fn decoded(rest: Seq<u8>, parameter: ModbusAsciiADUOptions, r: Result<ModbusAsciiADU, DecodeError>, n: int) -> bool {
        match parse_ascii(rest, parameter.response) {
            Ok(f) => r is Ok && r->Ok_0@ == f && n == rest.len(),
            Err(e) => r == Err::<ModbusAsciiADU, DecodeError>(e),
        }
    }

    fn get_length_in_bits(&self) -> (r: u32)
    {
        assert(self.encodable() && self.encoding() == adu_bytes(self@));
        assert(adu_fits(self@) && adu_pdu(self@) == self.pdu@);
        assert(self.encoding() =~= (seq![self.address] + pdu_bytes(self.pdu@)).push(
            lrc8_of(seq![self.address] + pdu_bytes(self.pdu@)),
        ));
        proof {
            lemma_pdu_bytes_len(self.pdu@);
            assert(self.pdu.encodable() && self.pdu.encoding() == pdu_bytes(self.pdu@));
        }
        16 + self.pdu.get_length_in_bits()
    }

    fn serialize(&self, writer: &mut WriteBuffer) -> (r: Result<usize, EncodeError>)
    {
        if !self.pdu.fits() {
            return Err(EncodeError::ValueOutOfRange);
        }
        let ghost start = writer.writer@;
        let from = writer.writer.len();
        writer.write_u8(self.address);
        let _ = self.pdu.serialize(writer);
        let to = writer.writer.len();
        let framed = vstd::slice::slice_subrange(writer.writer.as_slice(), from, to);
        assert(framed@ =~= seq![self.address] + pdu_bytes(self.pdu@));
        let c = lrc8(framed);
        writer.write_u8(c);
        assert(writer.writer@ =~= start + adu_bytes(self@));
        proof {
            lemma_pdu_bytes_len(self.pdu@);
        }
        Ok(to - from + 1)
    }

    fn parse(reader: &mut ReadBuffer, parameter: ModbusAsciiADUOptions) -> (r: Result<ModbusAsciiADU, DecodeError>)
    {
        let start = reader.position;
        let len = reader.data.len();
        if len - start < 2 {
            return Err(DecodeError::TruncatedInput);
        }
        let end = len - 1;
        let body = vstd::slice::slice_subrange(reader.data.as_slice(), start, end);
        assert(body@ =~= reader.rest().subrange(0, reader.rest().len() - 1));
        if lrc8(body) != reader.data[end] {
            return Err(DecodeError::ChecksumMismatch);
        }
        let (address, pdu) = parse_serial_body(body, parameter.response)?;
        reader.position = len;
        Ok(ModbusAsciiADU { address, pdu })
    }
}
} // verus!
