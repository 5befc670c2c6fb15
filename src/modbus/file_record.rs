use vstd::prelude::*;

use crate::read_buffer::{u16_from, ReadBuffer};
use crate::write_buffer::{u16_bytes, WriteBuffer};
use crate::{DecodeError, EncodeError, Endianess, Message, NoOption};

verus! {
/// A 16-bit field in network byte order.
pub open spec fn be16(x: u16) -> Seq<u8> {
    u16_bytes(Endianess::BigEndian, x)
}

/// The big-endian 16-bit field at index `i` of `s`.
pub open spec fn be16_at(s: Seq<u8>, i: int) -> u16 {
    u16_from(Endianess::BigEndian, s[i], s[i + 1])
}

/// A 16-bit field is read back as written.
pub proof fn lemma_be16_round_trip(x: u16)
    ensures
        u16_from(Endianess::BigEndian, be16(x)[0], be16(x)[1]) == x,
{
}

/// One sub-request of a read-file-record request: which record of which file, and how
/// many registers of it.
#[derive(Clone, Copy, PartialEq, Eq, Debug, Structural)]
pub struct ModbusPDUReadFileRecordRequestItem {
    pub reference_type: u8,
    pub file_number: u16,
    pub record_number: u16,
    pub record_length: u16,
}

/// The seven bytes of a read-file-record sub-request.
pub open spec fn request_item_bytes(i: ModbusPDUReadFileRecordRequestItem) -> Seq<u8> {
    seq![i.reference_type] + be16(i.file_number) + be16(i.record_number) + be16(i.record_length)
}

/// The sub-request whose seven bytes start at index `k` of `s`.
pub open spec fn request_item_at(s: Seq<u8>, k: int) -> ModbusPDUReadFileRecordRequestItem {
    ModbusPDUReadFileRecordRequestItem {
        reference_type: s[k],
        file_number: be16_at(s, k + 1),
        record_number: be16_at(s, k + 3),
        record_length: be16_at(s, k + 5),
    }
}

/// A sub-request is read back from its bytes, whatever follows them.
pub proof fn lemma_request_item_round_trip(i: ModbusPDUReadFileRecordRequestItem, s: Seq<u8>, k: int)
    requires
        0 <= k,
        k + 7 <= s.len(),
        s.subrange(k, k + 7) == request_item_bytes(i),
    ensures
        request_item_at(s, k) == i,
{
    let b = request_item_bytes(i);
    assert(s[k] == b[0]);
    assert(s[k + 1] == b[1] && s[k + 2] == b[2]);
    assert(s[k + 3] == b[3] && s[k + 4] == b[4]);
    assert(s[k + 5] == b[5] && s[k + 6] == b[6]);
}

/// One record echoed by a write-file-record response; its length in registers is
/// derived from the data.
#[derive(Clone, PartialEq, Eq, Debug)]
pub struct ModbusPDUWriteFileRecordResponseItem {
    pub reference_type: u8,
    pub file_number: u16,
    pub record_number: u16,
    pub record_data: Vec<u8>,
}

/// The bytes of a write-file-record item: its fields, the number of 16-bit registers
/// in the data, and the data.
pub open spec fn response_item_bytes(reference_type: u8, file_number: u16, record_number: u16, data: Seq<u8>) -> Seq<u8> {
    seq![reference_type] + be16(file_number) + be16(record_number) + be16((data.len() / 2) as u16) + data
}

/// The data can be described by its register count: whole registers, at most 65535.
pub open spec fn record_data_fits(data: Seq<u8>) -> bool {
    data.len() % 2 == 0 && data.len() / 2 <= 0xFFFF
}

impl ModbusPDUWriteFileRecordResponseItem {
    pub open spec fn bytes(&self) -> Seq<u8> {
        response_item_bytes(self.reference_type, self.file_number, self.record_number, self.record_data@)
    }

    /// Length of the data in 16-bit registers.
    pub fn record_length(&self) -> (r: u16)
        requires
            self.record_data@.len() / 2 <= 0xFFFF,
        ensures
            r == self.record_data@.len() / 2,
    {
        (self.record_data.len() / 2) as u16
    }
}

/// A write-file-record item is read back as written.
pub proof fn lemma_response_item_round_trip(reference_type: u8, file_number: u16, record_number: u16, data: Seq<u8>, tail: Seq<u8>)
    requires
        record_data_fits(data),
    ensures
        ({
            let s = response_item_bytes(reference_type, file_number, record_number, data) + tail;
            &&& s.len() >= 7
            &&& be16_at(s, 5) == data.len() / 2
            &&& s.len() >= 7 + 2 * be16_at(s, 5)
            &&& s[0] == reference_type
            &&& be16_at(s, 1) == file_number
            &&& be16_at(s, 3) == record_number
            &&& s.subrange(7, 7 + 2 * be16_at(s, 5)) == data
        }),
{
    let s = response_item_bytes(reference_type, file_number, record_number, data) + tail;
    let b = response_item_bytes(reference_type, file_number, record_number, data);
    lemma_be16_round_trip(file_number);
    lemma_be16_round_trip(record_number);
    lemma_be16_round_trip((data.len() / 2) as u16);
    assert(s[1] == b[1] && s[2] == b[2] && s[3] == b[3] && s[4] == b[4] && s[5] == b[5] && s[6] == b[6]);
    assert(s.subrange(7, 7 + data.len() as int) =~= data);
}

impl Message for ModbusPDUReadFileRecordRequestItem {
    type P = NoOption;

    open spec fn encodable(&self) -> bool {
        true
    }

    open spec fn encoding(&self) -> Seq<u8> {
        request_item_bytes(*self)
    }

    open spec fn decoded(rest: Seq<u8>, parameter: NoOption, r: Result<ModbusPDUReadFileRecordRequestItem, DecodeError>, n: int) -> bool {
        if rest.len() < 7 {
            r == Err::<ModbusPDUReadFileRecordRequestItem, DecodeError>(DecodeError::TruncatedInput)
        } else {
            r == Ok::<ModbusPDUReadFileRecordRequestItem, DecodeError>(request_item_at(rest, 0)) && n == 7
        }
    }

    fn get_length_in_bits(&self) -> (r: u32)
    {
        56
    }

    fn serialize(&self, writer: &mut WriteBuffer) -> (r: Result<usize, EncodeError>)
    {
        let ghost start = writer.writer@;
        let mut size = writer.write_u8(self.reference_type);
        size = size + writer.write_u16(self.file_number);
        size = size + writer.write_u16(self.record_number);
        size = size + writer.write_u16(self.record_length);
        assert(writer.writer@ =~= start + request_item_bytes(*self));
        Ok(size)
    }

    fn parse(reader: &mut ReadBuffer, parameter: NoOption) -> (r: Result<ModbusPDUReadFileRecordRequestItem, DecodeError>)
    {
        if reader.remaining() < 7 {
            return Err(DecodeError::TruncatedInput);
        }
        let reference_type = reader.read_u8()?;
        let file_number = reader.read_u16()?;
        let record_number = reader.read_u16()?;
        let record_length = reader.read_u16()?;
        Ok(ModbusPDUReadFileRecordRequestItem { reference_type, file_number, record_number, record_length })
    }
}

impl Message for ModbusPDUWriteFileRecordResponseItem {
    type P = NoOption;

    open spec fn encodable(&self) -> bool {
        record_data_fits(self.record_data@)
    }

    open spec fn encoding(&self) -> Seq<u8> {
        self.bytes()
    }

    open spec fn decoded(rest: Seq<u8>, parameter: NoOption, r: Result<ModbusPDUWriteFileRecordResponseItem, DecodeError>, n: int) -> bool {
        if rest.len() < 7 || rest.len() < 7 + 2 * be16_at(rest, 5) {
            r == Err::<ModbusPDUWriteFileRecordResponseItem, DecodeError>(DecodeError::TruncatedInput)
        } else {
            &&& r is Ok
            &&& r->Ok_0.reference_type == rest[0]
            &&& r->Ok_0.file_number == be16_at(rest, 1)
            &&& r->Ok_0.record_number == be16_at(rest, 3)
            &&& r->Ok_0.record_data@ == rest.subrange(7, 7 + 2 * be16_at(rest, 5))
            &&& n == 7 + 2 * be16_at(rest, 5)
        }
    }

    fn get_length_in_bits(&self) -> (r: u32)
    {
        (8 * (7 + self.record_data.len())) as u32
    }

    fn serialize(&self, writer: &mut WriteBuffer) -> (r: Result<usize, EncodeError>)
    {
        let n = self.record_data.len();
        if n % 2 != 0 || n / 2 > 0xFFFF {
            return Err(EncodeError::ValueOutOfRange);
        }
        let ghost start = writer.writer@;
        let mut size = writer.write_u8(self.reference_type);
        size = size + writer.write_u16(self.file_number);
        size = size + writer.write_u16(self.record_number);
        size = size + writer.write_u16(self.record_length());
        size = size + writer.write_bytes(self.record_data.as_slice());
        assert(writer.writer@ =~= start + self.bytes());
        Ok(size)
    }

    fn parse(reader: &mut ReadBuffer, parameter: NoOption) -> (r: Result<ModbusPDUWriteFileRecordResponseItem, DecodeError>)
    {
        let ghost s = reader.rest();
        let ghost start = reader.position;
        if reader.remaining() < 7 {
            return Err(DecodeError::TruncatedInput);
        }
        let reference_type = reader.read_u8()?;
        let file_number = reader.read_u16()?;
        let record_number = reader.read_u16()?;
        let record_length = reader.read_u16()?;
        assert(record_length == be16_at(s, 5));
        let record_data = reader.read_bytes(2 * record_length as usize)?;
        assert(record_data@ =~= s.subrange(7, 7 + 2 * be16_at(s, 5)));
        assert(reader.position - start == 7 + 2 * be16_at(s, 5));
        Ok(ModbusPDUWriteFileRecordResponseItem { reference_type, file_number, record_number, record_data })
    }
}
} // verus!
