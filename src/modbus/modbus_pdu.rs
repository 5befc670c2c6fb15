use vstd::prelude::*;

use crate::modbus::enums::{error_code_of, error_code_tag, ModbusErrorCode};
use crate::modbus::pdu_body::{
    body_bytes, body_fits, lemma_body_round_trip, parse_body, shape_of_body, Body, BodyShape, BodyValue,
};
use crate::modbus::pdu_fields::{
    AddressQuantity, AddressQuantityValues, AddressValue, ByteValues, FileRecords, ModbusPDUGetComEventCounterResponse,
    ModbusPDUReadFifoQueueRequest, ModbusPDUReadFifoQueueResponse, ModbusPDUReadFileRecordRequest,
    ModbusPDUReadFileRecordResponse,
};
use crate::read_buffer::{bit_at, bits_value, lemma_bits_within_byte, ReadBuffer};
use vstd::arithmetic::power2::pow2;
use crate::write_buffer::{lemma_push_within_byte, WriteBuffer};
use crate::{DecodeError, Discriminant, EncodeError, Endianess, Message};

verus! {
pub type ModbusPDUReadCoilsRequest = AddressQuantity;
pub type ModbusPDUReadCoilsResponse = ByteValues;
pub type ModbusPDUReadDiscreteInputsRequest = AddressQuantity;
pub type ModbusPDUReadDiscreteInputsResponse = ByteValues;
pub type ModbusPDUReadHoldingRegistersRequest = AddressQuantity;
pub type ModbusPDUReadHoldingRegistersResponse = ByteValues;
pub type ModbusPDUReadInputRegistersRequest = AddressQuantity;
pub type ModbusPDUReadInputRegistersResponse = ByteValues;
pub type ModbusPDUWriteSingleCoilRequest = AddressValue;
pub type ModbusPDUWriteSingleCoilResponse = AddressValue;
pub type ModbusPDUWriteSingleRegisterRequest = AddressValue;
pub type ModbusPDUWriteSingleRegisterResponse = AddressValue;
pub type ModbusPDUWriteMultipleCoilsRequest = AddressQuantityValues;
pub type ModbusPDUWriteMultipleCoilsResponse = AddressQuantity;
pub type ModbusPDUWriteMultipleHoldingRegistersRequest = AddressQuantityValues;
pub type ModbusPDUWriteMultipleHoldingRegistersResponse = AddressQuantity;
pub type ModbusPDUReportServerIdResponse = ByteValues;
pub type ModbusPDUWriteFileRecordRequest = FileRecords;
pub type ModbusPDUWriteFileRecordResponse = FileRecords;

/// What a message is, with derived counts left out: an exception response for a
/// function, or a message of a function in one direction with its body.
pub enum PduModel {
    Exception { function_code: u8, exception_code: ModbusErrorCode },
    Message { function_code: u8, response: bool, body: Body },
}

/// The body layout of each function in each direction; `None` where no message is
/// defined.
pub open spec fn shape_of(function_code: u8, response: bool) -> Option<BodyShape> {
    if function_code == 0x01 {
        if response {
            Some(BodyShape::Bytes)
        } else {
            Some(BodyShape::TwoWords)
        }
    } else if function_code == 0x02 {
        if response {
            Some(BodyShape::Bytes)
        } else {
            Some(BodyShape::TwoWords)
        }
    } else if function_code == 0x03 {
        if response {
            Some(BodyShape::Bytes)
        } else {
            Some(BodyShape::TwoWords)
        }
    } else if function_code == 0x04 {
        if response {
            Some(BodyShape::Bytes)
        } else {
            Some(BodyShape::TwoWords)
        }
    } else if function_code == 0x05 {
        if response {
            Some(BodyShape::TwoWords)
        } else {
            Some(BodyShape::TwoWords)
        }
    } else if function_code == 0x06 {
        if response {
            Some(BodyShape::TwoWords)
        } else {
            Some(BodyShape::TwoWords)
        }
    } else if function_code == 0x0B {
        if response {
            Some(BodyShape::TwoWords)
        } else {
            Some(BodyShape::Empty)
        }
    } else if function_code == 0x0F {
        if response {
            Some(BodyShape::TwoWords)
        } else {
            Some(BodyShape::TwoWordsBytes)
        }
    } else if function_code == 0x10 {
        if response {
            Some(BodyShape::TwoWords)
        } else {
            Some(BodyShape::TwoWordsBytes)
        }
    } else if function_code == 0x11 {
        if response {
            Some(BodyShape::Bytes)
        } else {
            Some(BodyShape::Empty)
        }
    } else if function_code == 0x14 {
        if response {
            Some(BodyShape::ReadFileRecords)
        } else {
            Some(BodyShape::FileRecordRequests)
        }
    } else if function_code == 0x15 {
        if response {
            Some(BodyShape::WriteFileRecords)
        } else {
            Some(BodyShape::WriteFileRecords)
        }
    } else if function_code == 0x18 {
        if response {
            Some(BodyShape::Words)
        } else {
            Some(BodyShape::Word)
        }
    } else {
        None
    }
}

/// The leading byte of a message: the error flag in bit 0, the function code above it.
pub open spec fn discriminant_byte(error_flag: bool, function_code: u8) -> u8 {
    ((if error_flag { 1int } else { 0int }) + 2 * function_code) as u8
}

/// The wire bytes of a message.
pub open spec fn pdu_bytes(m: PduModel) -> Seq<u8> {
    match m {
        PduModel::Exception { function_code, exception_code } => seq![
            discriminant_byte(true, function_code),
            error_code_tag(exception_code),
        ],
        PduModel::Message { function_code, body, .. } => seq![discriminant_byte(false, function_code)]
            + body_bytes(body),
    }
}

/// The message can be written and read back: its function code fits in seven bits, its
/// body has the layout the function and direction call for, and every derived count
/// fits its field.
pub open spec fn pdu_fits(m: PduModel) -> bool {
    match m {
        PduModel::Exception { function_code, .. } => function_code < 128,
        PduModel::Message { function_code, response, body } => {
            &&& function_code < 128
            &&& shape_of(function_code, response) == Some(shape_of_body(body))
            &&& body_fits(body)
        },
    }
}

/// Decodes a message from the front of `s`, in the given direction: the message and
/// the number of bytes it took, or why it could not be read.
pub open spec fn parse_pdu(s: Seq<u8>, response: bool) -> Result<(PduModel, nat), DecodeError> {
    if s.len() == 0 {
        Err(DecodeError::TruncatedInput)
    } else {
        let function_code = (s[0] / 2) as u8;
        if s[0] % 2 == 1 {
            if s.len() < 2 {
                Err(DecodeError::TruncatedInput)
            } else {
                match error_code_of(s[1]) {
                    Some(c) => Ok((PduModel::Exception { function_code, exception_code: c }, 2)),
                    None => Err(
                        DecodeError::UnknownDiscriminant(
                            Discriminant::Message { error_flag: true, function_code, response },
                        ),
                    ),
                }
            }
        } else {
            match shape_of(function_code, response) {
                None => Err(DecodeError::UnknownDiscriminant(Discriminant::Message { error_flag: false, function_code, response })),
                Some(shape) => match parse_body(shape, s.subrange(1, s.len() as int)) {
                    Ok((body, n)) => Ok((PduModel::Message { function_code, response, body }, n + 1)),
                    Err(e) => Err(e),
                },
            }
        }
    }
}

/// A message that fits is decoded back from its bytes, whatever follows them, in its own
/// direction (an exception response in either).
pub proof fn lemma_pdu_round_trip(m: PduModel, tail: Seq<u8>, response: bool)
    requires
        pdu_fits(m),
        m matches PduModel::Message { response: r, .. } ==> r == response,
    ensures
        parse_pdu(pdu_bytes(m) + tail, response) == Ok::<(PduModel, nat), DecodeError>((m, pdu_bytes(m).len())),
{
    let s = pdu_bytes(m) + tail;
    match m {
        PduModel::Exception { function_code, exception_code } => {
            assert(s[1] == error_code_tag(exception_code));
        },
        PduModel::Message { function_code, response: r, body } => {
            assert(s.subrange(1, s.len() as int) =~= body_bytes(body) + tail);
            lemma_body_round_trip(body, tail);
        },
    }
}

/// The bytes of a message that fits number at most 0x10002.
pub proof fn lemma_pdu_bytes_len(m: PduModel)
    requires
        pdu_fits(m),
    ensures
        pdu_bytes(m).len() <= 0x10002,
{
    if let PduModel::Message { body, .. } = m {
        match body {
            Body::FileRecordRequests(items) => crate::modbus::pdu_body::lemma_items_bytes(items),
            Body::Words(v) => crate::modbus::pdu_body::lemma_words_bytes(v),
            _ => {},
        }
    }
}

/// A message with the error flag clear and a function code that no message is defined
/// for, in the given direction, is refused as unknown.
pub proof fn lemma_unknown_discriminant(s: Seq<u8>, response: bool)
    requires
        s.len() >= 1,
        s[0] % 2 == 0,
        shape_of((s[0] / 2) as u8, response) is None,
    ensures
        parse_pdu(s, response) == Err::<(PduModel, nat), DecodeError>(
            DecodeError::UnknownDiscriminant(Discriminant::Message { error_flag: false, function_code: (s[0] / 2) as u8, response }),
        ),
{
}

/// Function code 0x7F is assigned to no message: with the error flag clear it is refused
/// as unknown in either direction.
pub proof fn lemma_function_code_7f_is_unknown(s: Seq<u8>, response: bool)
    requires
        s.len() >= 1,
        s[0] == 0xFE,
    ensures
        parse_pdu(s, response) == Err::<(PduModel, nat), DecodeError>(
            DecodeError::UnknownDiscriminant(Discriminant::Message { error_flag: false, function_code: 0x7F, response }),
        ),
{
}

/// An exception response: the function it answers and the exception code.
#[derive(Clone, Copy, PartialEq, Eq, Debug, Structural)]
pub struct ModbusPDUError {
    pub function_code: u8,
    pub exception_code: ModbusErrorCode,
}

/// The direction a message is decoded in.
#[derive(Clone, Copy, PartialEq, Eq, Debug, Structural)]
pub struct ModbusPDUOption {
    pub bit_response: bool,
}

/// A Modbus message, selected by error flag, function code and direction.
#[derive(Clone, PartialEq, Eq, Debug)]
pub enum ModbusPDU {
    ModbusPDUError(ModbusPDUError),
    ModbusPDUReadCoilsRequest(ModbusPDUReadCoilsRequest),
    ModbusPDUReadCoilsResponse(ModbusPDUReadCoilsResponse),
    ModbusPDUReadDiscreteInputsRequest(ModbusPDUReadDiscreteInputsRequest),
    ModbusPDUReadDiscreteInputsResponse(ModbusPDUReadDiscreteInputsResponse),
    ModbusPDUReadHoldingRegistersRequest(ModbusPDUReadHoldingRegistersRequest),
    ModbusPDUReadHoldingRegistersResponse(ModbusPDUReadHoldingRegistersResponse),
    ModbusPDUReadInputRegistersRequest(ModbusPDUReadInputRegistersRequest),
    ModbusPDUReadInputRegistersResponse(ModbusPDUReadInputRegistersResponse),
    ModbusPDUWriteSingleCoilRequest(ModbusPDUWriteSingleCoilRequest),
    ModbusPDUWriteSingleCoilResponse(ModbusPDUWriteSingleCoilResponse),
    ModbusPDUWriteSingleRegisterRequest(ModbusPDUWriteSingleRegisterRequest),
    ModbusPDUWriteSingleRegisterResponse(ModbusPDUWriteSingleRegisterResponse),
    ModbusPDUGetComEventCounterRequest,
    ModbusPDUGetComEventCounterResponse(ModbusPDUGetComEventCounterResponse),
    ModbusPDUWriteMultipleCoilsRequest(ModbusPDUWriteMultipleCoilsRequest),
    ModbusPDUWriteMultipleCoilsResponse(ModbusPDUWriteMultipleCoilsResponse),
    ModbusPDUWriteMultipleHoldingRegistersRequest(ModbusPDUWriteMultipleHoldingRegistersRequest),
    ModbusPDUWriteMultipleHoldingRegistersResponse(ModbusPDUWriteMultipleHoldingRegistersResponse),
    ModbusPDUReportServerIdRequest,
    ModbusPDUReportServerIdResponse(ModbusPDUReportServerIdResponse),
    ModbusPDUReadFileRecordRequest(ModbusPDUReadFileRecordRequest),
    ModbusPDUReadFileRecordResponse(ModbusPDUReadFileRecordResponse),
    ModbusPDUWriteFileRecordRequest(ModbusPDUWriteFileRecordRequest),
    ModbusPDUWriteFileRecordResponse(ModbusPDUWriteFileRecordResponse),
    ModbusPDUReadFifoQueueRequest(ModbusPDUReadFifoQueueRequest),
    ModbusPDUReadFifoQueueResponse(ModbusPDUReadFifoQueueResponse),
}

impl View for ModbusPDU {
    type V = PduModel;

    open spec fn view(&self) -> PduModel {
        match self {
            ModbusPDU::ModbusPDUError(e) => PduModel::Exception {
                function_code: e.function_code,
                exception_code: e.exception_code,
            },
            ModbusPDU::ModbusPDUReadCoilsRequest(x) => PduModel::Message {
                function_code: 0x01,
                response: false,
                body: x.body(),
            },
            ModbusPDU::ModbusPDUReadCoilsResponse(x) => PduModel::Message {
                function_code: 0x01,
                response: true,
                body: x.body(),
            },
            ModbusPDU::ModbusPDUReadDiscreteInputsRequest(x) => PduModel::Message {
                function_code: 0x02,
                response: false,
                body: x.body(),
            },
            ModbusPDU::ModbusPDUReadDiscreteInputsResponse(x) => PduModel::Message {
                function_code: 0x02,
                response: true,
                body: x.body(),
            },
            ModbusPDU::ModbusPDUReadHoldingRegistersRequest(x) => PduModel::Message {
                function_code: 0x03,
                response: false,
                body: x.body(),
            },
            ModbusPDU::ModbusPDUReadHoldingRegistersResponse(x) => PduModel::Message {
                function_code: 0x03,
                response: true,
                body: x.body(),
            },
            ModbusPDU::ModbusPDUReadInputRegistersRequest(x) => PduModel::Message {
                function_code: 0x04,
                response: false,
                body: x.body(),
            },
            ModbusPDU::ModbusPDUReadInputRegistersResponse(x) => PduModel::Message {
                function_code: 0x04,
                response: true,
                body: x.body(),
            },
            ModbusPDU::ModbusPDUWriteSingleCoilRequest(x) => PduModel::Message {
                function_code: 0x05,
                response: false,
                body: x.body(),
            },
            ModbusPDU::ModbusPDUWriteSingleCoilResponse(x) => PduModel::Message {
                function_code: 0x05,
                response: true,
                body: x.body(),
            },
            ModbusPDU::ModbusPDUWriteSingleRegisterRequest(x) => PduModel::Message {
                function_code: 0x06,
                response: false,
                body: x.body(),
            },
            ModbusPDU::ModbusPDUWriteSingleRegisterResponse(x) => PduModel::Message {
                function_code: 0x06,
                response: true,
                body: x.body(),
            },
            ModbusPDU::ModbusPDUGetComEventCounterRequest => PduModel::Message {
                function_code: 0x0B,
                response: false,
                body: Body::Empty,
            },
            ModbusPDU::ModbusPDUGetComEventCounterResponse(x) => PduModel::Message {
                function_code: 0x0B,
                response: true,
                body: x.body(),
            },
            ModbusPDU::ModbusPDUWriteMultipleCoilsRequest(x) => PduModel::Message {
                function_code: 0x0F,
                response: false,
                body: x.body(),
            },
            ModbusPDU::ModbusPDUWriteMultipleCoilsResponse(x) => PduModel::Message {
                function_code: 0x0F,
                response: true,
                body: x.body(),
            },
            ModbusPDU::ModbusPDUWriteMultipleHoldingRegistersRequest(x) => PduModel::Message {
                function_code: 0x10,
                response: false,
                body: x.body(),
            },
            ModbusPDU::ModbusPDUWriteMultipleHoldingRegistersResponse(x) => PduModel::Message {
                function_code: 0x10,
                response: true,
                body: x.body(),
            },
            ModbusPDU::ModbusPDUReportServerIdRequest => PduModel::Message {
                function_code: 0x11,
                response: false,
                body: Body::Empty,
            },
            ModbusPDU::ModbusPDUReportServerIdResponse(x) => PduModel::Message {
                function_code: 0x11,
                response: true,
                body: x.body(),
            },
            ModbusPDU::ModbusPDUReadFileRecordRequest(x) => PduModel::Message {
                function_code: 0x14,
                response: false,
                body: x.body(),
            },
            ModbusPDU::ModbusPDUReadFileRecordResponse(x) => PduModel::Message {
                function_code: 0x14,
                response: true,
                body: x.body(),
            },
            ModbusPDU::ModbusPDUWriteFileRecordRequest(x) => PduModel::Message {
                function_code: 0x15,
                response: false,
                body: x.body(),
            },
            ModbusPDU::ModbusPDUWriteFileRecordResponse(x) => PduModel::Message {
                function_code: 0x15,
                response: true,
                body: x.body(),
            },
            ModbusPDU::ModbusPDUReadFifoQueueRequest(x) => PduModel::Message {
                function_code: 0x18,
                response: false,
                body: x.body(),
            },
            ModbusPDU::ModbusPDUReadFifoQueueResponse(x) => PduModel::Message {
                function_code: 0x18,
                response: true,
                body: x.body(),
            },
        }
    }
}

impl ModbusPDU {
    /// Whether this is an exception response.
    pub fn is_error(&self) -> (r: bool)
        ensures
            r == (self@ is Exception),
    {
        match self {
            ModbusPDU::ModbusPDUError(_) => true,
            _ => false,
        }
    }

    /// The function code carried in the leading byte.
    pub fn function_code(&self) -> (r: u8)
        ensures
            r == match self@ {
                PduModel::Exception { function_code, .. } => function_code,
                PduModel::Message { function_code, .. } => function_code,
            },
    {
        match self {
            ModbusPDU::ModbusPDUError(e) => e.function_code,
            ModbusPDU::ModbusPDUReadCoilsRequest(_) => 0x01,
            ModbusPDU::ModbusPDUReadCoilsResponse(_) => 0x01,
            ModbusPDU::ModbusPDUReadDiscreteInputsRequest(_) => 0x02,
            ModbusPDU::ModbusPDUReadDiscreteInputsResponse(_) => 0x02,
            ModbusPDU::ModbusPDUReadHoldingRegistersRequest(_) => 0x03,
            ModbusPDU::ModbusPDUReadHoldingRegistersResponse(_) => 0x03,
            ModbusPDU::ModbusPDUReadInputRegistersRequest(_) => 0x04,
            ModbusPDU::ModbusPDUReadInputRegistersResponse(_) => 0x04,
            ModbusPDU::ModbusPDUWriteSingleCoilRequest(_) => 0x05,
            ModbusPDU::ModbusPDUWriteSingleCoilResponse(_) => 0x05,
            ModbusPDU::ModbusPDUWriteSingleRegisterRequest(_) => 0x06,
            ModbusPDU::ModbusPDUWriteSingleRegisterResponse(_) => 0x06,
            ModbusPDU::ModbusPDUGetComEventCounterRequest => 0x0B,
            ModbusPDU::ModbusPDUGetComEventCounterResponse(_) => 0x0B,
            ModbusPDU::ModbusPDUWriteMultipleCoilsRequest(_) => 0x0F,
            ModbusPDU::ModbusPDUWriteMultipleCoilsResponse(_) => 0x0F,
            ModbusPDU::ModbusPDUWriteMultipleHoldingRegistersRequest(_) => 0x10,
            ModbusPDU::ModbusPDUWriteMultipleHoldingRegistersResponse(_) => 0x10,
            ModbusPDU::ModbusPDUReportServerIdRequest => 0x11,
            ModbusPDU::ModbusPDUReportServerIdResponse(_) => 0x11,
            ModbusPDU::ModbusPDUReadFileRecordRequest(_) => 0x14,
            ModbusPDU::ModbusPDUReadFileRecordResponse(_) => 0x14,
            ModbusPDU::ModbusPDUWriteFileRecordRequest(_) => 0x15,
            ModbusPDU::ModbusPDUWriteFileRecordResponse(_) => 0x15,
            ModbusPDU::ModbusPDUReadFifoQueueRequest(_) => 0x18,
            ModbusPDU::ModbusPDUReadFifoQueueResponse(_) => 0x18,
        }
    }

    /// Whether the message can be written: see `pdu_fits`.
    pub fn fits(&self) -> (r: bool)
        ensures
            r == pdu_fits(self@),
    {
        match self {
            ModbusPDU::ModbusPDUError(e) => e.function_code < 128,
            ModbusPDU::ModbusPDUReadCoilsResponse(x) => x.fits(),
            ModbusPDU::ModbusPDUReadDiscreteInputsResponse(x) => x.fits(),
            ModbusPDU::ModbusPDUReadHoldingRegistersResponse(x) => x.fits(),
            ModbusPDU::ModbusPDUReadInputRegistersResponse(x) => x.fits(),
            ModbusPDU::ModbusPDUWriteMultipleCoilsRequest(x) => x.fits(),
            ModbusPDU::ModbusPDUWriteMultipleHoldingRegistersRequest(x) => x.fits(),
            ModbusPDU::ModbusPDUReportServerIdResponse(x) => x.fits(),
            ModbusPDU::ModbusPDUReadFileRecordRequest(x) => x.fits(),
            ModbusPDU::ModbusPDUReadFileRecordResponse(x) => x.fits(),
            ModbusPDU::ModbusPDUWriteFileRecordRequest(x) => x.fits(),
            ModbusPDU::ModbusPDUWriteFileRecordResponse(x) => x.fits(),
            ModbusPDU::ModbusPDUReadFifoQueueResponse(x) => x.fits(),
            _ => true,
        }
    }
}

impl Message for ModbusPDU {
    type P = ModbusPDUOption;

    open spec fn encodable(&self) -> bool {
        pdu_fits(self@)
    }

    open spec fn encoding(&self) -> Seq<u8> {
        pdu_bytes(self@)
    }

    open spec fn decoded(rest: Seq<u8>, parameter: ModbusPDUOption, r: Result<ModbusPDU, DecodeError>, n: int) -> bool {
        match parse_pdu(rest, parameter.bit_response) {
            Ok((m, k)) => r is Ok && r->Ok_0@ == m && n == k,
            Err(e) => r == Err::<ModbusPDU, DecodeError>(e),
        }
    }

    fn get_length_in_bits(&self) -> (r: u32)
    {
        assert(self.encodable() && self.encoding() == pdu_bytes(self@));
        match self {
            ModbusPDU::ModbusPDUError(_) => 16,
            ModbusPDU::ModbusPDUReadCoilsRequest(x) => 8 + x.get_length_in_bits(),
            ModbusPDU::ModbusPDUReadCoilsResponse(x) => 8 + x.get_length_in_bits(),
            ModbusPDU::ModbusPDUReadDiscreteInputsRequest(x) => 8 + x.get_length_in_bits(),
            ModbusPDU::ModbusPDUReadDiscreteInputsResponse(x) => 8 + x.get_length_in_bits(),
            ModbusPDU::ModbusPDUReadHoldingRegistersRequest(x) => 8 + x.get_length_in_bits(),
            ModbusPDU::ModbusPDUReadHoldingRegistersResponse(x) => 8 + x.get_length_in_bits(),
            ModbusPDU::ModbusPDUReadInputRegistersRequest(x) => 8 + x.get_length_in_bits(),
            ModbusPDU::ModbusPDUReadInputRegistersResponse(x) => 8 + x.get_length_in_bits(),
            ModbusPDU::ModbusPDUWriteSingleCoilRequest(x) => 8 + x.get_length_in_bits(),
            ModbusPDU::ModbusPDUWriteSingleCoilResponse(x) => 8 + x.get_length_in_bits(),
            ModbusPDU::ModbusPDUWriteSingleRegisterRequest(x) => 8 + x.get_length_in_bits(),
            ModbusPDU::ModbusPDUWriteSingleRegisterResponse(x) => 8 + x.get_length_in_bits(),
            ModbusPDU::ModbusPDUGetComEventCounterRequest => 8,
            ModbusPDU::ModbusPDUGetComEventCounterResponse(x) => 8 + x.get_length_in_bits(),
            ModbusPDU::ModbusPDUWriteMultipleCoilsRequest(x) => 8 + x.get_length_in_bits(),
            ModbusPDU::ModbusPDUWriteMultipleCoilsResponse(x) => 8 + x.get_length_in_bits(),
            ModbusPDU::ModbusPDUWriteMultipleHoldingRegistersRequest(x) => 8 + x.get_length_in_bits(),
            ModbusPDU::ModbusPDUWriteMultipleHoldingRegistersResponse(x) => 8 + x.get_length_in_bits(),
            ModbusPDU::ModbusPDUReportServerIdRequest => 8,
            ModbusPDU::ModbusPDUReportServerIdResponse(x) => 8 + x.get_length_in_bits(),
            ModbusPDU::ModbusPDUReadFileRecordRequest(x) => 8 + x.get_length_in_bits(),
            ModbusPDU::ModbusPDUReadFileRecordResponse(x) => 8 + x.get_length_in_bits(),
            ModbusPDU::ModbusPDUWriteFileRecordRequest(x) => 8 + x.get_length_in_bits(),
            ModbusPDU::ModbusPDUWriteFileRecordResponse(x) => 8 + x.get_length_in_bits(),
            ModbusPDU::ModbusPDUReadFifoQueueRequest(x) => 8 + x.get_length_in_bits(),
            ModbusPDU::ModbusPDUReadFifoQueueResponse(x) => 8 + x.get_length_in_bits(),
        }
    }

    fn serialize(&self, writer: &mut WriteBuffer) -> (r: Result<usize, EncodeError>)
    {
        assert(self.encodable() == pdu_fits(self@) && self.encoding() == pdu_bytes(self@));
        if !self.fits() {
            return Err(EncodeError::ValueOutOfRange);
        }
        let ghost start = writer.writer@;
        let error_flag = self.is_error();
        let function_code = self.function_code();
        let flag_bit: u64 = if error_flag { 1 } else { 0 };
        proof {
            vstd::arithmetic::power2::lemma2_to64();
            assert(writer.bit_writer.value == 0);
            lemma_push_within_byte(start, 0, 0, flag_bit as nat, 1);
        }
        writer.write_u_n(1, flag_bit);
        proof {
            assert(writer.writer@ == start && writer.bit_writer.position == 1);
            assert(writer.bit_writer.value == flag_bit);
            lemma_push_within_byte(start, 1, flag_bit as nat, function_code as nat, 7);
            assert(!writer.aligned());
        }
        writer.write_u_n(7, function_code as u64);
        proof {
            assert(function_code < 128);
            assert(function_code as nat % pow2(7) == function_code);
            assert(writer.writer@ == start.push(
                (flag_bit as nat + (function_code as nat % pow2(7)) * pow2(1)) as u8,
            ));
            assert(writer.writer@ == start.push(discriminant_byte(error_flag, function_code)));
        }
        let n = match self {
            ModbusPDU::ModbusPDUError(e) => writer.write_u8(e.exception_code.tag()),
            ModbusPDU::ModbusPDUReadCoilsRequest(x) => x.serialize_body(writer),
            ModbusPDU::ModbusPDUReadCoilsResponse(x) => x.serialize_body(writer),
            ModbusPDU::ModbusPDUReadDiscreteInputsRequest(x) => x.serialize_body(writer),
            ModbusPDU::ModbusPDUReadDiscreteInputsResponse(x) => x.serialize_body(writer),
            ModbusPDU::ModbusPDUReadHoldingRegistersRequest(x) => x.serialize_body(writer),
            ModbusPDU::ModbusPDUReadHoldingRegistersResponse(x) => x.serialize_body(writer),
            ModbusPDU::ModbusPDUReadInputRegistersRequest(x) => x.serialize_body(writer),
            ModbusPDU::ModbusPDUReadInputRegistersResponse(x) => x.serialize_body(writer),
            ModbusPDU::ModbusPDUWriteSingleCoilRequest(x) => x.serialize_body(writer),
            ModbusPDU::ModbusPDUWriteSingleCoilResponse(x) => x.serialize_body(writer),
            ModbusPDU::ModbusPDUWriteSingleRegisterRequest(x) => x.serialize_body(writer),
            ModbusPDU::ModbusPDUWriteSingleRegisterResponse(x) => x.serialize_body(writer),
            ModbusPDU::ModbusPDUGetComEventCounterRequest => 0,
            ModbusPDU::ModbusPDUGetComEventCounterResponse(x) => x.serialize_body(writer),
            ModbusPDU::ModbusPDUWriteMultipleCoilsRequest(x) => x.serialize_body(writer),
            ModbusPDU::ModbusPDUWriteMultipleCoilsResponse(x) => x.serialize_body(writer),
            ModbusPDU::ModbusPDUWriteMultipleHoldingRegistersRequest(x) => x.serialize_body(writer),
            ModbusPDU::ModbusPDUWriteMultipleHoldingRegistersResponse(x) => x.serialize_body(writer),
            ModbusPDU::ModbusPDUReportServerIdRequest => 0,
            ModbusPDU::ModbusPDUReportServerIdResponse(x) => x.serialize_body(writer),
            ModbusPDU::ModbusPDUReadFileRecordRequest(x) => x.serialize_body(writer),
            ModbusPDU::ModbusPDUReadFileRecordResponse(x) => x.serialize_body(writer),
            ModbusPDU::ModbusPDUWriteFileRecordRequest(x) => x.serialize_body(writer),
            ModbusPDU::ModbusPDUWriteFileRecordResponse(x) => x.serialize_body(writer),
            ModbusPDU::ModbusPDUReadFifoQueueRequest(x) => x.serialize_body(writer),
            ModbusPDU::ModbusPDUReadFifoQueueResponse(x) => x.serialize_body(writer),
        };
        assert(writer.writer@ =~= start + pdu_bytes(self@));
        Ok(1 + n)
    }

    fn parse(reader: &mut ReadBuffer, parameter: ModbusPDUOption) -> (r: Result<ModbusPDU, DecodeError>)
    {
        let response = parameter.bit_response;
        let ghost s = reader.rest();
        let ghost p = reader.position as nat;
        let ghost data = reader.data@;
        let error_flag = reader.read_bit()?;
        proof {
            vstd::arithmetic::power2::lemma2_to64();
            lemma_bits_within_byte(data, p, 0, 1);
            lemma_bits_within_byte(data, p, 1, 7);
            assert(s[0] == data[p as int]);
            assert(bits_value(data, 8 * p, 1) == bits_value(data, 8 * p, 0) + bit_at(data, 8 * p) * pow2(0));
            assert(bits_value(data, 8 * p, 1) == bit_at(data, 8 * p));
            assert(bit_at(data, 8 * p) == data[p as int] % 2);
            assert(error_flag == (bit_at(data, 8 * p) == 1));
        }
        let function_flag = reader.read_u_n(7)? as u8;
        proof {
            assert(error_flag == (s[0] % 2 == 1));
            assert(function_flag == (s[0] / 2) as u8);
            assert(reader.bit_reader.position == 0);
            assert(reader.rest() =~= s.subrange(1, s.len() as int));
        }
        if error_flag {
            let tag = reader.read_u8()?;
            return match ModbusErrorCode::from_tag(tag) {
                Some(exception_code) => Ok(
                    ModbusPDU::ModbusPDUError(ModbusPDUError { function_code: function_flag, exception_code }),
                ),
                None => Err(
                    DecodeError::UnknownDiscriminant(
                        Discriminant::Message { error_flag: true, function_code: function_flag, response },
                    ),
                ),
            };
        }
        match (function_flag, response) {
            (0x01, false) => Ok(ModbusPDU::ModbusPDUReadCoilsRequest(AddressQuantity::parse(reader)?)),
            (0x01, true) => Ok(ModbusPDU::ModbusPDUReadCoilsResponse(ByteValues::parse(reader)?)),
            (0x02, false) => Ok(ModbusPDU::ModbusPDUReadDiscreteInputsRequest(AddressQuantity::parse(reader)?)),
            (0x02, true) => Ok(ModbusPDU::ModbusPDUReadDiscreteInputsResponse(ByteValues::parse(reader)?)),
            (0x03, false) => Ok(ModbusPDU::ModbusPDUReadHoldingRegistersRequest(AddressQuantity::parse(reader)?)),
            (0x03, true) => Ok(ModbusPDU::ModbusPDUReadHoldingRegistersResponse(ByteValues::parse(reader)?)),
            (0x04, false) => Ok(ModbusPDU::ModbusPDUReadInputRegistersRequest(AddressQuantity::parse(reader)?)),
            (0x04, true) => Ok(ModbusPDU::ModbusPDUReadInputRegistersResponse(ByteValues::parse(reader)?)),
            (0x05, false) => Ok(ModbusPDU::ModbusPDUWriteSingleCoilRequest(AddressValue::parse(reader)?)),
            (0x05, true) => Ok(ModbusPDU::ModbusPDUWriteSingleCoilResponse(AddressValue::parse(reader)?)),
            (0x06, false) => Ok(ModbusPDU::ModbusPDUWriteSingleRegisterRequest(AddressValue::parse(reader)?)),
            (0x06, true) => Ok(ModbusPDU::ModbusPDUWriteSingleRegisterResponse(AddressValue::parse(reader)?)),
            (0x0B, false) => Ok(ModbusPDU::ModbusPDUGetComEventCounterRequest),
            (0x0B, true) => Ok(ModbusPDU::ModbusPDUGetComEventCounterResponse(ModbusPDUGetComEventCounterResponse::parse(reader)?)),
            (0x0F, false) => Ok(ModbusPDU::ModbusPDUWriteMultipleCoilsRequest(AddressQuantityValues::parse(reader)?)),
            (0x0F, true) => Ok(ModbusPDU::ModbusPDUWriteMultipleCoilsResponse(AddressQuantity::parse(reader)?)),
            (0x10, false) => Ok(ModbusPDU::ModbusPDUWriteMultipleHoldingRegistersRequest(AddressQuantityValues::parse(reader)?)),
            (0x10, true) => Ok(ModbusPDU::ModbusPDUWriteMultipleHoldingRegistersResponse(AddressQuantity::parse(reader)?)),
            (0x11, false) => Ok(ModbusPDU::ModbusPDUReportServerIdRequest),
            (0x11, true) => Ok(ModbusPDU::ModbusPDUReportServerIdResponse(ByteValues::parse(reader)?)),
            (0x14, false) => Ok(ModbusPDU::ModbusPDUReadFileRecordRequest(ModbusPDUReadFileRecordRequest::parse(reader)?)),
            (0x14, true) => Ok(ModbusPDU::ModbusPDUReadFileRecordResponse(ModbusPDUReadFileRecordResponse::parse(reader)?)),
            (0x15, false) => Ok(ModbusPDU::ModbusPDUWriteFileRecordRequest(FileRecords::parse(reader)?)),
            (0x15, true) => Ok(ModbusPDU::ModbusPDUWriteFileRecordResponse(FileRecords::parse(reader)?)),
            (0x18, false) => Ok(ModbusPDU::ModbusPDUReadFifoQueueRequest(ModbusPDUReadFifoQueueRequest::parse(reader)?)),
            (0x18, true) => Ok(ModbusPDU::ModbusPDUReadFifoQueueResponse(ModbusPDUReadFifoQueueResponse::parse(reader)?)),
            _ => Err(DecodeError::UnknownDiscriminant(Discriminant::Message { error_flag: false, function_code: function_flag, response })),
        }
    }
}
} // verus!
