use vstd::prelude::*;

use crate::read_buffer::ReadBuffer;
use crate::write_buffer::WriteBuffer;
use crate::{DecodeError, Discriminant, EncodeError, Endianess, Message, NoOption};

verus! {
/// Exception codes a server returns in an error response.
#[allow(non_camel_case_types)]
#[derive(Clone, Copy, PartialEq, Eq, Debug, Structural)]
pub enum ModbusErrorCode {
    ILLEGAL_FUNCTION,
    ILLEGAL_DATA_ADDRESS,
    ILLEGAL_DATA_VALUE,
    SLAVE_DEVICE_FAILURE,
    ACKNOWLEDGE,
    SLAVE_DEVICE_BUSY,
    NEGATIVE_ACKNOWLEDGE,
    MEMORY_PARITY_ERROR,
    GATEWAY_PATH_UNAVAILABLE,
    GATEWAY_TARGET_DEVICE_FAILED_TO_RESPOND,
}

/// The wire tag of an exception code.
pub open spec fn error_code_tag(c: ModbusErrorCode) -> u8 {
    match c {
        ModbusErrorCode::ILLEGAL_FUNCTION => 1,
        ModbusErrorCode::ILLEGAL_DATA_ADDRESS => 2,
        ModbusErrorCode::ILLEGAL_DATA_VALUE => 3,
        ModbusErrorCode::SLAVE_DEVICE_FAILURE => 4,
        ModbusErrorCode::ACKNOWLEDGE => 5,
        ModbusErrorCode::SLAVE_DEVICE_BUSY => 6,
        ModbusErrorCode::NEGATIVE_ACKNOWLEDGE => 7,
        ModbusErrorCode::MEMORY_PARITY_ERROR => 8,
        ModbusErrorCode::GATEWAY_PATH_UNAVAILABLE => 10,
        ModbusErrorCode::GATEWAY_TARGET_DEVICE_FAILED_TO_RESPOND => 11,
    }
}

/// The exception code a wire tag stands for, if any.
pub open spec fn error_code_of(t: u8) -> Option<ModbusErrorCode> {
    if t == 1 {
        Some(ModbusErrorCode::ILLEGAL_FUNCTION)
    } else if t == 2 {
        Some(ModbusErrorCode::ILLEGAL_DATA_ADDRESS)
    } else if t == 3 {
        Some(ModbusErrorCode::ILLEGAL_DATA_VALUE)
    } else if t == 4 {
        Some(ModbusErrorCode::SLAVE_DEVICE_FAILURE)
    } else if t == 5 {
        Some(ModbusErrorCode::ACKNOWLEDGE)
    } else if t == 6 {
        Some(ModbusErrorCode::SLAVE_DEVICE_BUSY)
    } else if t == 7 {
        Some(ModbusErrorCode::NEGATIVE_ACKNOWLEDGE)
    } else if t == 8 {
        Some(ModbusErrorCode::MEMORY_PARITY_ERROR)
    } else if t == 10 {
        Some(ModbusErrorCode::GATEWAY_PATH_UNAVAILABLE)
    } else if t == 11 {
        Some(ModbusErrorCode::GATEWAY_TARGET_DEVICE_FAILED_TO_RESPOND)
    } else {
        None
    }
}

/// Every exception code is found again from its tag.
pub proof fn lemma_error_code_tag_round_trip(c: ModbusErrorCode)
    ensures
        error_code_of(error_code_tag(c)) == Some(c),
{
}

impl ModbusErrorCode {
    pub fn tag(self) -> (r: u8)
        ensures
            r == error_code_tag(self),
    {
        match self {
            ModbusErrorCode::ILLEGAL_FUNCTION => 1,
            ModbusErrorCode::ILLEGAL_DATA_ADDRESS => 2,
            ModbusErrorCode::ILLEGAL_DATA_VALUE => 3,
            ModbusErrorCode::SLAVE_DEVICE_FAILURE => 4,
            ModbusErrorCode::ACKNOWLEDGE => 5,
            ModbusErrorCode::SLAVE_DEVICE_BUSY => 6,
            ModbusErrorCode::NEGATIVE_ACKNOWLEDGE => 7,
            ModbusErrorCode::MEMORY_PARITY_ERROR => 8,
            ModbusErrorCode::GATEWAY_PATH_UNAVAILABLE => 10,
            ModbusErrorCode::GATEWAY_TARGET_DEVICE_FAILED_TO_RESPOND => 11,
        }
    }

    pub fn from_tag(t: u8) -> (r: Option<ModbusErrorCode>)
        ensures
            r == error_code_of(t),
    {
        match t {
            1 => Some(ModbusErrorCode::ILLEGAL_FUNCTION),
            2 => Some(ModbusErrorCode::ILLEGAL_DATA_ADDRESS),
            3 => Some(ModbusErrorCode::ILLEGAL_DATA_VALUE),
            4 => Some(ModbusErrorCode::SLAVE_DEVICE_FAILURE),
            5 => Some(ModbusErrorCode::ACKNOWLEDGE),
            6 => Some(ModbusErrorCode::SLAVE_DEVICE_BUSY),
            7 => Some(ModbusErrorCode::NEGATIVE_ACKNOWLEDGE),
            8 => Some(ModbusErrorCode::MEMORY_PARITY_ERROR),
            10 => Some(ModbusErrorCode::GATEWAY_PATH_UNAVAILABLE),
            11 => Some(ModbusErrorCode::GATEWAY_TARGET_DEVICE_FAILED_TO_RESPOND),
            _ => None,
        }
    }
}

/// How many identification objects a device-identification request asks for.
#[allow(non_camel_case_types)]
#[derive(Clone, Copy, PartialEq, Eq, Debug, Structural)]
pub enum ModbusDeviceInformationLevel {
    BASIC,
    REGULAR,
    EXTENDED,
    INDIVIDUAL,
}

pub open spec fn information_level_tag(l: ModbusDeviceInformationLevel) -> u8 {
    match l {
        ModbusDeviceInformationLevel::BASIC => 0x01,
        ModbusDeviceInformationLevel::REGULAR => 0x02,
        ModbusDeviceInformationLevel::EXTENDED => 0x03,
        ModbusDeviceInformationLevel::INDIVIDUAL => 0x04,
    }
}

pub open spec fn information_level_of(t: u8) -> Option<ModbusDeviceInformationLevel> {
    if t == 0x01 {
        Some(ModbusDeviceInformationLevel::BASIC)
    } else if t == 0x02 {
        Some(ModbusDeviceInformationLevel::REGULAR)
    } else if t == 0x03 {
        Some(ModbusDeviceInformationLevel::EXTENDED)
    } else if t == 0x04 {
        Some(ModbusDeviceInformationLevel::INDIVIDUAL)
    } else {
        None
    }
}

impl ModbusDeviceInformationLevel {
    pub fn tag(self) -> (r: u8)
        ensures
            r == information_level_tag(self),
            information_level_of(r) == Some(self),
    {
        match self {
            ModbusDeviceInformationLevel::BASIC => 0x01,
            ModbusDeviceInformationLevel::REGULAR => 0x02,
            ModbusDeviceInformationLevel::EXTENDED => 0x03,
            ModbusDeviceInformationLevel::INDIVIDUAL => 0x04,
        }
    }

    pub fn from_tag(t: u8) -> (r: Option<ModbusDeviceInformationLevel>)
        ensures
            r == information_level_of(t),
    {
        match t {
            0x01 => Some(ModbusDeviceInformationLevel::BASIC),
            0x02 => Some(ModbusDeviceInformationLevel::REGULAR),
            0x03 => Some(ModbusDeviceInformationLevel::EXTENDED),
            0x04 => Some(ModbusDeviceInformationLevel::INDIVIDUAL),
            _ => None,
        }
    }
}

/// Whether a device-identification response is followed by more objects.
#[allow(non_camel_case_types)]
#[derive(Clone, Copy, PartialEq, Eq, Debug, Structural)]
pub enum ModbusDeviceInformationMoreFollows {
    NO_MORE_OBJECTS_AVAILABLE,
    MORE_OBJECTS_AVAILABLE,
}

pub open spec fn more_follows_tag(m: ModbusDeviceInformationMoreFollows) -> u8 {
    match m {
        ModbusDeviceInformationMoreFollows::NO_MORE_OBJECTS_AVAILABLE => 0x00,
        ModbusDeviceInformationMoreFollows::MORE_OBJECTS_AVAILABLE => 0xFF,
    }
}

pub open spec fn more_follows_of(t: u8) -> Option<ModbusDeviceInformationMoreFollows> {
    if t == 0x00 {
        Some(ModbusDeviceInformationMoreFollows::NO_MORE_OBJECTS_AVAILABLE)
    } else if t == 0xFF {
        Some(ModbusDeviceInformationMoreFollows::MORE_OBJECTS_AVAILABLE)
    } else {
        None
    }
}

impl ModbusDeviceInformationMoreFollows {
    pub fn tag(self) -> (r: u8)
        ensures
            r == more_follows_tag(self),
            more_follows_of(r) == Some(self),
    {
        match self {
            ModbusDeviceInformationMoreFollows::NO_MORE_OBJECTS_AVAILABLE => 0x00,
            ModbusDeviceInformationMoreFollows::MORE_OBJECTS_AVAILABLE => 0xFF,
        }
    }

    pub fn from_tag(t: u8) -> (r: Option<ModbusDeviceInformationMoreFollows>)
        ensures
            r == more_follows_of(t),
    {
        match t {
            0x00 => Some(ModbusDeviceInformationMoreFollows::NO_MORE_OBJECTS_AVAILABLE),
            0xFF => Some(ModbusDeviceInformationMoreFollows::MORE_OBJECTS_AVAILABLE),
            _ => None,
        }
    }
}

/// Conformity level of a device's identification, a 7-bit field on the wire.
#[allow(non_camel_case_types)]
#[derive(Clone, Copy, PartialEq, Eq, Debug, Structural)]
pub enum ModbusDeviceInformationConformityLevel {
    BASIC_STREAM_ONLY,
    REGULAR_STREAM_ONLY,
    EXTENDED_STREAM_ONLY,
}

pub open spec fn conformity_level_tag(c: ModbusDeviceInformationConformityLevel) -> u8 {
    match c {
        ModbusDeviceInformationConformityLevel::BASIC_STREAM_ONLY => 0x01,
        ModbusDeviceInformationConformityLevel::REGULAR_STREAM_ONLY => 0x02,
        ModbusDeviceInformationConformityLevel::EXTENDED_STREAM_ONLY => 0x03,
    }
}

pub open spec fn conformity_level_of(t: u64) -> Option<ModbusDeviceInformationConformityLevel> {
    if t == 0x01 {
        Some(ModbusDeviceInformationConformityLevel::BASIC_STREAM_ONLY)
    } else if t == 0x02 {
        Some(ModbusDeviceInformationConformityLevel::REGULAR_STREAM_ONLY)
    } else if t == 0x03 {
        Some(ModbusDeviceInformationConformityLevel::EXTENDED_STREAM_ONLY)
    } else {
        None
    }
}

impl ModbusDeviceInformationConformityLevel {
    pub fn tag(self) -> (r: u8)
        ensures
            r == conformity_level_tag(self),
            conformity_level_of(r as u64) == Some(self),
    {
        match self {
            ModbusDeviceInformationConformityLevel::BASIC_STREAM_ONLY => 0x01,
            ModbusDeviceInformationConformityLevel::REGULAR_STREAM_ONLY => 0x02,
            ModbusDeviceInformationConformityLevel::EXTENDED_STREAM_ONLY => 0x03,
        }
    }

    pub fn from_tag(t: u64) -> (r: Option<ModbusDeviceInformationConformityLevel>)
        ensures
            r == conformity_level_of(t),
    {
        if t == 0x01 {
            Some(ModbusDeviceInformationConformityLevel::BASIC_STREAM_ONLY)
        } else if t == 0x02 {
            Some(ModbusDeviceInformationConformityLevel::REGULAR_STREAM_ONLY)
        } else if t == 0x03 {
            Some(ModbusDeviceInformationConformityLevel::EXTENDED_STREAM_ONLY)
        } else {
            None
        }
    }

    /// Writes the tag as a 7-bit field.
    pub fn serialize(&self, writer: &mut WriteBuffer) -> (r: Result<usize, EncodeError>)
        requires
            old(writer).wf(),
        ensures
            final(writer).wf(),
            final(writer).endianness == old(writer).endianness,
            (final(writer).writer@, final(writer).bit_writer.position as nat,
                final(writer).bit_writer.value as nat) == crate::write_buffer::push_bits(
                old(writer).writer@,
                old(writer).bit_writer.position as nat,
                old(writer).bit_writer.value as nat,
                conformity_level_tag(*self) as nat,
                7,
            ),
            r is Ok,
    {
        Ok(writer.write_u_n(7, self.tag() as u64))
    }

    /// Reads a 7-bit tag and maps it to a level.
    pub fn parse(reader: &mut ReadBuffer) -> (r: Result<ModbusDeviceInformationConformityLevel, DecodeError>)
        requires
            old(reader).wf(),
        ensures
            final(reader).wf(),
            final(reader).same_source(old(reader)),
            old(reader).cursor() + 7 > 8 * old(reader).data@.len() ==> r == Err::<
                ModbusDeviceInformationConformityLevel,
                DecodeError,
            >(DecodeError::TruncatedInput),
            old(reader).cursor() + 7 <= 8 * old(reader).data@.len() ==> {
                let t = crate::read_buffer::bits_value(old(reader).data@, old(reader).cursor(), 7);
                &&& final(reader).cursor() == old(reader).cursor() + 7
                &&& r == match conformity_level_of(t as u64) {
                    Some(c) => Ok::<ModbusDeviceInformationConformityLevel, DecodeError>(c),
                    None => Err(DecodeError::UnknownDiscriminant(Discriminant::Tag { tag: t as u64 })),
                }
            },
    {
        let t = reader.read_u_n(7)?;
        proof {
            vstd::arithmetic::power2::lemma2_to64();
        }
        match ModbusDeviceInformationConformityLevel::from_tag(t) {
            Some(c) => Ok(c),
            None => Err(DecodeError::UnknownDiscriminant(Discriminant::Tag { tag: t as u64 })),
        }
    }
}

/// The transport a frame travels on; it selects the frame's shape.
#[allow(non_camel_case_types)]
#[derive(Clone, Copy, PartialEq, Eq, Debug, Structural)]
pub enum DriverType {
    MODBUS_TCP,
    MODBUS_RTU,
    MODBUS_ASCII,
}

pub open spec fn driver_type_tag(d: DriverType) -> u8 {
    match d {
        DriverType::MODBUS_TCP => 0x01,
        DriverType::MODBUS_RTU => 0x02,
        DriverType::MODBUS_ASCII => 0x03,
    }
}

pub open spec fn driver_type_of(t: u8) -> Option<DriverType> {
    if t == 0x01 {
        Some(DriverType::MODBUS_TCP)
    } else if t == 0x02 {
        Some(DriverType::MODBUS_RTU)
    } else if t == 0x03 {
        Some(DriverType::MODBUS_ASCII)
    } else {
        None
    }
}

impl DriverType {
    pub fn tag(self) -> (r: u8)
        ensures
            r == driver_type_tag(self),
            driver_type_of(r) == Some(self),
    {
        match self {
            DriverType::MODBUS_TCP => 0x01,
            DriverType::MODBUS_RTU => 0x02,
            DriverType::MODBUS_ASCII => 0x03,
        }
    }

    pub fn from_tag(t: u8) -> (r: Option<DriverType>)
        ensures
            r == driver_type_of(t),
    {
        match t {
            0x01 => Some(DriverType::MODBUS_TCP),
            0x02 => Some(DriverType::MODBUS_RTU),
            0x03 => Some(DriverType::MODBUS_ASCII),
            _ => None,
        }
    }
}

/// Data types a value read over Modbus may be interpreted as.
#[allow(non_camel_case_types)]
#[derive(Clone, Copy, PartialEq, Eq, Debug, Structural)]
pub enum ModbusDataType {
    BOOL,
    BYTE,
    WORD,
    DWORD,
    LWORD,
    SINT,
    INT,
    DINT,
    LINT,
    USINT,
    UINT,
    UDINT,
    ULINT,
    REAL,
    LREAL,
    TIME,
    LTIME,
    DATE,
    LDATE,
    TIME_OF_DAY,
    LTIME_OF_DAY,
    DATE_AND_TIME,
    LDATE_AND_TIME,
    CHAR,
    WCHAR,
    STRING,
    WSTRING,
}

/// Properties of a data type.
#[derive(Clone, Copy, PartialEq, Eq, Debug, Structural)]
pub struct ModbusDataTypeArguments {
    /// Size of one value of the type, in bytes.
    pub data_type_size: u8,
}

/// The size in bytes of one value of each data type.
pub open spec fn data_type_size(t: ModbusDataType) -> u8 {
    match t {
        ModbusDataType::BOOL => 2,
        ModbusDataType::BYTE => 2,
        ModbusDataType::WORD => 2,
        ModbusDataType::DWORD => 4,
        ModbusDataType::LWORD => 8,
        ModbusDataType::SINT => 2,
        ModbusDataType::INT => 2,
        ModbusDataType::DINT => 4,
        ModbusDataType::LINT => 8,
        ModbusDataType::USINT => 2,
        ModbusDataType::UINT => 2,
        ModbusDataType::UDINT => 4,
        ModbusDataType::ULINT => 8,
        ModbusDataType::REAL => 4,
        ModbusDataType::LREAL => 8,
        ModbusDataType::TIME => 8,
        ModbusDataType::LTIME => 8,
        ModbusDataType::DATE => 8,
        ModbusDataType::LDATE => 8,
        ModbusDataType::TIME_OF_DAY => 8,
        ModbusDataType::LTIME_OF_DAY => 8,
        ModbusDataType::DATE_AND_TIME => 8,
        ModbusDataType::LDATE_AND_TIME => 8,
        ModbusDataType::CHAR => 1,
        ModbusDataType::WCHAR => 2,
        ModbusDataType::STRING => 1,
        ModbusDataType::WSTRING => 2,
    }
}

pub open spec fn data_type_tag(t: ModbusDataType) -> u8 {
    match t {
        ModbusDataType::BOOL => 1,
        ModbusDataType::BYTE => 2,
        ModbusDataType::WORD => 3,
        ModbusDataType::DWORD => 4,
        ModbusDataType::LWORD => 5,
        ModbusDataType::SINT => 6,
        ModbusDataType::INT => 7,
        ModbusDataType::DINT => 8,
        ModbusDataType::LINT => 9,
        ModbusDataType::USINT => 10,
        ModbusDataType::UINT => 11,
        ModbusDataType::UDINT => 12,
        ModbusDataType::ULINT => 13,
        ModbusDataType::REAL => 14,
        ModbusDataType::LREAL => 15,
        ModbusDataType::TIME => 16,
        ModbusDataType::LTIME => 17,
        ModbusDataType::DATE => 18,
        ModbusDataType::LDATE => 19,
        ModbusDataType::TIME_OF_DAY => 20,
        ModbusDataType::LTIME_OF_DAY => 21,
        ModbusDataType::DATE_AND_TIME => 22,
        ModbusDataType::LDATE_AND_TIME => 23,
        ModbusDataType::CHAR => 24,
        ModbusDataType::WCHAR => 25,
        ModbusDataType::STRING => 26,
        ModbusDataType::WSTRING => 27,
    }
}

impl ModbusDataType {
    pub fn get_arguments(self) -> (r: ModbusDataTypeArguments)
        ensures
            r.data_type_size == data_type_size(self),
    {
        let data_type_size: u8 = match self {
            ModbusDataType::BOOL => 2,
            ModbusDataType::BYTE => 2,
            ModbusDataType::WORD => 2,
            ModbusDataType::DWORD => 4,
            ModbusDataType::LWORD => 8,
            ModbusDataType::SINT => 2,
            ModbusDataType::INT => 2,
            ModbusDataType::DINT => 4,
            ModbusDataType::LINT => 8,
            ModbusDataType::USINT => 2,
            ModbusDataType::UINT => 2,
            ModbusDataType::UDINT => 4,
            ModbusDataType::ULINT => 8,
            ModbusDataType::REAL => 4,
            ModbusDataType::LREAL => 8,
            ModbusDataType::TIME => 8,
            ModbusDataType::LTIME => 8,
            ModbusDataType::DATE => 8,
            ModbusDataType::LDATE => 8,
            ModbusDataType::TIME_OF_DAY => 8,
            ModbusDataType::LTIME_OF_DAY => 8,
            ModbusDataType::DATE_AND_TIME => 8,
            ModbusDataType::LDATE_AND_TIME => 8,
            ModbusDataType::CHAR => 1,
            ModbusDataType::WCHAR => 2,
            ModbusDataType::STRING => 1,
            ModbusDataType::WSTRING => 2,
        };
        ModbusDataTypeArguments { data_type_size }
    }

    pub fn tag(self) -> (r: u8)
        ensures
            r == data_type_tag(self),
    {
        match self {
            ModbusDataType::BOOL => 1,
            ModbusDataType::BYTE => 2,
            ModbusDataType::WORD => 3,
            ModbusDataType::DWORD => 4,
            ModbusDataType::LWORD => 5,
            ModbusDataType::SINT => 6,
            ModbusDataType::INT => 7,
            ModbusDataType::DINT => 8,
            ModbusDataType::LINT => 9,
            ModbusDataType::USINT => 10,
            ModbusDataType::UINT => 11,
            ModbusDataType::UDINT => 12,
            ModbusDataType::ULINT => 13,
            ModbusDataType::REAL => 14,
            ModbusDataType::LREAL => 15,
            ModbusDataType::TIME => 16,
            ModbusDataType::LTIME => 17,
            ModbusDataType::DATE => 18,
            ModbusDataType::LDATE => 19,
            ModbusDataType::TIME_OF_DAY => 20,
            ModbusDataType::LTIME_OF_DAY => 21,
            ModbusDataType::DATE_AND_TIME => 22,
            ModbusDataType::LDATE_AND_TIME => 23,
            ModbusDataType::CHAR => 24,
            ModbusDataType::WCHAR => 25,
            ModbusDataType::STRING => 26,
            ModbusDataType::WSTRING => 27,
        }
    }

    pub fn from_tag(t: u8) -> (r: Option<ModbusDataType>)
        ensures
            r is Some <==> 1 <= t <= 27,
            r matches Some(d) ==> data_type_tag(d) == t,
    {
        match t {
            1 => Some(ModbusDataType::BOOL),
            2 => Some(ModbusDataType::BYTE),
            3 => Some(ModbusDataType::WORD),
            4 => Some(ModbusDataType::DWORD),
            5 => Some(ModbusDataType::LWORD),
            6 => Some(ModbusDataType::SINT),
            7 => Some(ModbusDataType::INT),
            8 => Some(ModbusDataType::DINT),
            9 => Some(ModbusDataType::LINT),
            10 => Some(ModbusDataType::USINT),
            11 => Some(ModbusDataType::UINT),
            12 => Some(ModbusDataType::UDINT),
            13 => Some(ModbusDataType::ULINT),
            14 => Some(ModbusDataType::REAL),
            15 => Some(ModbusDataType::LREAL),
            16 => Some(ModbusDataType::TIME),
            17 => Some(ModbusDataType::LTIME),
            18 => Some(ModbusDataType::DATE),
            19 => Some(ModbusDataType::LDATE),
            20 => Some(ModbusDataType::TIME_OF_DAY),
            21 => Some(ModbusDataType::LTIME_OF_DAY),
            22 => Some(ModbusDataType::DATE_AND_TIME),
            23 => Some(ModbusDataType::LDATE_AND_TIME),
            24 => Some(ModbusDataType::CHAR),
            25 => Some(ModbusDataType::WCHAR),
            26 => Some(ModbusDataType::STRING),
            27 => Some(ModbusDataType::WSTRING),
            _ => None,
        }
    }
}

impl Message for ModbusErrorCode {
    type P = NoOption;

    open spec fn encodable(&self) -> bool {
        true
    }

    open spec fn encoding(&self) -> Seq<u8> {
        seq![error_code_tag(*self)]
    }

    open spec fn decoded(rest: Seq<u8>, parameter: NoOption, r: Result<ModbusErrorCode, DecodeError>, n: int) -> bool {
        if rest.len() == 0 {
            r == Err::<ModbusErrorCode, DecodeError>(DecodeError::TruncatedInput)
        } else {
            &&& r == match error_code_of(rest[0]) {
                Some(c) => Ok::<ModbusErrorCode, DecodeError>(c),
                None => Err(DecodeError::UnknownDiscriminant(Discriminant::Tag { tag: rest[0] as u64 })),
            }
            &&& n == 1
        }
    }

    fn get_length_in_bits(&self) -> (r: u32)
    {
        8
    }

    fn serialize(&self, writer: &mut WriteBuffer) -> (r: Result<usize, EncodeError>)
    {
        Ok(writer.write_u8(self.tag()))
    }

    fn parse(reader: &mut ReadBuffer, parameter: NoOption) -> (r: Result<ModbusErrorCode, DecodeError>)
    {
        let ghost s = reader.rest();
        let ghost start = reader.position;
        if reader.remaining() == 0 {
            return Err(DecodeError::TruncatedInput);
        }
        let t = reader.read_u8()?;
        assert(t == s[0] && reader.position - start == 1);
        let r = match ModbusErrorCode::from_tag(t) {
            Some(c) => Ok(c),
            None => Err(DecodeError::UnknownDiscriminant(Discriminant::Tag { tag: t as u64 })),
        };
        assert(Self::decoded(s, parameter, r, 1));
        r
    }
}

impl Message for DriverType {
    type P = NoOption;

    open spec fn encodable(&self) -> bool {
        true
    }

    open spec fn encoding(&self) -> Seq<u8> {
        seq![driver_type_tag(*self)]
    }

    open spec fn decoded(rest: Seq<u8>, parameter: NoOption, r: Result<DriverType, DecodeError>, n: int) -> bool {
        if rest.len() == 0 {
            r == Err::<DriverType, DecodeError>(DecodeError::TruncatedInput)
        } else {
            &&& r == match driver_type_of(rest[0]) {
                Some(c) => Ok::<DriverType, DecodeError>(c),
                None => Err(DecodeError::UnknownDiscriminant(Discriminant::Tag { tag: rest[0] as u64 })),
            }
            &&& n == 1
        }
    }

    fn get_length_in_bits(&self) -> (r: u32)
    {
        8
    }

    fn serialize(&self, writer: &mut WriteBuffer) -> (r: Result<usize, EncodeError>)
    {
        Ok(writer.write_u8(self.tag()))
    }

    fn parse(reader: &mut ReadBuffer, parameter: NoOption) -> (r: Result<DriverType, DecodeError>)
    {
        let ghost s = reader.rest();
        let ghost start = reader.position;
        let t = reader.read_u8()?;
        assert(t == s[0] && reader.position - start == 1);
        match DriverType::from_tag(t) {
            Some(d) => Ok(d),
            None => Err(DecodeError::UnknownDiscriminant(Discriminant::Tag { tag: t as u64 })),
        }
    }
}

impl Message for ModbusDeviceInformationLevel {
    type P = NoOption;

    open spec fn encodable(&self) -> bool {
        true
    }

    open spec fn encoding(&self) -> Seq<u8> {
        seq![information_level_tag(*self)]
    }

    open spec fn decoded(rest: Seq<u8>, parameter: NoOption, r: Result<ModbusDeviceInformationLevel, DecodeError>, n: int) -> bool {
        if rest.len() == 0 {
            r == Err::<ModbusDeviceInformationLevel, DecodeError>(DecodeError::TruncatedInput)
        } else {
            &&& r == match information_level_of(rest[0]) {
                Some(c) => Ok::<ModbusDeviceInformationLevel, DecodeError>(c),
                None => Err(DecodeError::UnknownDiscriminant(Discriminant::Tag { tag: rest[0] as u64 })),
            }
            &&& n == 1
        }
    }

    fn get_length_in_bits(&self) -> (r: u32) {
        8
    }

    /// Writes the tag as one byte.
    fn serialize(&self, writer: &mut WriteBuffer) -> (r: Result<usize, EncodeError>) {
        let ghost start = writer.writer@;
        let n = writer.write_u8(self.tag());
        assert(writer.writer@ == start + self.encoding());
        Ok(n)
    }

    /// Reads one byte and maps it to a value.
    fn parse(reader: &mut ReadBuffer, parameter: NoOption) -> (r: Result<ModbusDeviceInformationLevel, DecodeError>) {
        let ghost s = reader.rest();
        let ghost start = reader.position;
        if reader.remaining() == 0 {
            return Err(DecodeError::TruncatedInput);
        }
        let t = reader.read_u8()?;
        assert(t == s[0] && reader.position - start == 1);
        let r = match ModbusDeviceInformationLevel::from_tag(t) {
            Some(c) => Ok(c),
            None => Err(DecodeError::UnknownDiscriminant(Discriminant::Tag { tag: t as u64 })),
        };
        assert(Self::decoded(s, parameter, r, 1));
        r
    }
}

impl Message for ModbusDeviceInformationMoreFollows {
    type P = NoOption;

    open spec fn encodable(&self) -> bool {
        true
    }

    open spec fn encoding(&self) -> Seq<u8> {
        seq![more_follows_tag(*self)]
    }

    open spec fn decoded(rest: Seq<u8>, parameter: NoOption, r: Result<ModbusDeviceInformationMoreFollows, DecodeError>, n: int) -> bool {
        if rest.len() == 0 {
            r == Err::<ModbusDeviceInformationMoreFollows, DecodeError>(DecodeError::TruncatedInput)
        } else {
            &&& r == match more_follows_of(rest[0]) {
                Some(c) => Ok::<ModbusDeviceInformationMoreFollows, DecodeError>(c),
                None => Err(DecodeError::UnknownDiscriminant(Discriminant::Tag { tag: rest[0] as u64 })),
            }
            &&& n == 1
        }
    }

    fn get_length_in_bits(&self) -> (r: u32) {
        8
    }

    /// Writes the tag as one byte.
    fn serialize(&self, writer: &mut WriteBuffer) -> (r: Result<usize, EncodeError>) {
        let ghost start = writer.writer@;
        let n = writer.write_u8(self.tag());
        assert(writer.writer@ == start + self.encoding());
        Ok(n)
    }

    /// Reads one byte and maps it to a value.
    fn parse(reader: &mut ReadBuffer, parameter: NoOption) -> (r: Result<ModbusDeviceInformationMoreFollows, DecodeError>) {
        let ghost s = reader.rest();
        let ghost start = reader.position;
        if reader.remaining() == 0 {
            return Err(DecodeError::TruncatedInput);
        }
        let t = reader.read_u8()?;
        assert(t == s[0] && reader.position - start == 1);
        let r = match ModbusDeviceInformationMoreFollows::from_tag(t) {
            Some(c) => Ok(c),
            None => Err(DecodeError::UnknownDiscriminant(Discriminant::Tag { tag: t as u64 })),
        };
        assert(Self::decoded(s, parameter, r, 1));
        r
    }
}
} // verus!
