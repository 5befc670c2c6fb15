use vstd::prelude::*;

use crate::modbus::file_record::{
    be16, be16_at, request_item_at, ModbusPDUReadFileRecordRequestItem, ModbusPDUWriteFileRecordResponseItem,
};
use crate::modbus::pdu_body::{
    body_bytes, items_bytes, lemma_read_records_bytes_append, lemma_write_records_bytes_append,
    lemma_write_records_bytes_single, parse_read_records, parse_write_records, parsed_body, write_records_bytes,
    write_records_fit,
    read_records_bytes, read_records_fit, words_bytes, Body, BodyShape, BodyValue,
};
use crate::read_buffer::ReadBuffer;
use crate::write_buffer::WriteBuffer;
use crate::{DecodeError, Endianess, Message, NoOption};

verus! {

/// Writes two 16-bit fields.
fn write_two_words(writer: &mut WriteBuffer, a: u16, b: u16) -> (r: usize)
    requires
        old(writer).wf(),
        old(writer).aligned(),
        old(writer).endianness == Endianess::BigEndian,
    ensures
        final(writer).wf(),
        final(writer).aligned(),
        final(writer).endianness == old(writer).endianness,
        final(writer).writer@ == old(writer).writer@ + be16(a) + be16(b),
        r == 4,
{
    let n = writer.write_u16(a);
    n + writer.write_u16(b)
}

/// Reads two 16-bit fields.
fn read_two_words(reader: &mut ReadBuffer) -> (r: Result<(u16, u16), DecodeError>)
    requires
        old(reader).wf(),
        old(reader).aligned(),
        old(reader).endianness == Endianess::BigEndian,
    ensures
        final(reader).wf(),
        final(reader).aligned(),
        final(reader).same_source(old(reader)),
        old(reader).rest().len() < 4 ==> r == Err::<(u16, u16), DecodeError>(DecodeError::TruncatedInput),
        old(reader).rest().len() >= 4 ==> {
            &&& r == Ok::<(u16, u16), DecodeError>(
                (be16_at(old(reader).rest(), 0), be16_at(old(reader).rest(), 2)),
            )
            &&& final(reader).position == old(reader).position + 4
        },
{
    if reader.remaining() < 4 {
        return Err(DecodeError::TruncatedInput);
    }
    let a = reader.read_u16()?;
    let b = reader.read_u16()?;
    Ok((a, b))
}

/// A block of coils or registers: where it starts and how many.
#[derive(Clone, Copy, PartialEq, Eq, Debug, Structural)]
pub struct AddressQuantity {
    pub starting_address: u16,
    pub quantity: u16,
}

impl BodyValue for AddressQuantity {
    open spec fn body(&self) -> Body {
        Body::TwoWords(self.starting_address, self.quantity)
    }
}

impl AddressQuantity {
    pub fn get_length_in_bits(&self) -> (r: u32)
        ensures
            r == 8 * body_bytes(self.body()).len(),
            r <= 8 * 0x10001,
    {
        32
    }

    pub fn serialize_body(&self, writer: &mut WriteBuffer) -> (r: usize)
        requires
            old(writer).wf(),
            old(writer).aligned(),
            old(writer).endianness == Endianess::BigEndian,
        ensures
            final(writer).wf(),
            final(writer).aligned(),
            final(writer).endianness == old(writer).endianness,
            final(writer).writer@ == old(writer).writer@ + body_bytes(self.body()),
            r == body_bytes(self.body()).len(),
            r <= 0x10001,
    {
        let r = write_two_words(writer, self.starting_address, self.quantity);
        assert(writer.writer@ =~= old(writer).writer@ + body_bytes(self.body()));
        r
    }

    pub fn parse(reader: &mut ReadBuffer) -> (r: Result<AddressQuantity, DecodeError>)
        requires
            old(reader).wf(),
            old(reader).aligned(),
            old(reader).endianness == Endianess::BigEndian,
        ensures
            final(reader).wf(),
            final(reader).aligned(),
            final(reader).same_source(old(reader)),
            parsed_body(r, BodyShape::TwoWords, old(reader).rest(), old(reader).position as nat, final(reader).position as nat),
    {
        let (starting_address, quantity) = read_two_words(reader)?;
        Ok(AddressQuantity { starting_address, quantity })
    }
}

/// A single coil or register and the value written to it.
#[derive(Clone, Copy, PartialEq, Eq, Debug, Structural)]
pub struct AddressValue {
    pub address: u16,
    pub value: u16,
}

impl BodyValue for AddressValue {
    open spec fn body(&self) -> Body {
        Body::TwoWords(self.address, self.value)
    }
}

impl AddressValue {
    pub fn get_length_in_bits(&self) -> (r: u32)
        ensures
            r == 8 * body_bytes(self.body()).len(),
            r <= 8 * 0x10001,
    {
        32
    }

    pub fn serialize_body(&self, writer: &mut WriteBuffer) -> (r: usize)
        requires
            old(writer).wf(),
            old(writer).aligned(),
            old(writer).endianness == Endianess::BigEndian,
        ensures
            final(writer).wf(),
            final(writer).aligned(),
            final(writer).endianness == old(writer).endianness,
            final(writer).writer@ == old(writer).writer@ + body_bytes(self.body()),
            r == body_bytes(self.body()).len(),
            r <= 0x10001,
    {
        let r = write_two_words(writer, self.address, self.value);
        assert(writer.writer@ =~= old(writer).writer@ + body_bytes(self.body()));
        r
    }

    pub fn parse(reader: &mut ReadBuffer) -> (r: Result<AddressValue, DecodeError>)
        requires
            old(reader).wf(),
            old(reader).aligned(),
            old(reader).endianness == Endianess::BigEndian,
        ensures
            final(reader).wf(),
            final(reader).aligned(),
            final(reader).same_source(old(reader)),
            parsed_body(r, BodyShape::TwoWords, old(reader).rest(), old(reader).position as nat, final(reader).position as nat),
    {
        let (address, value) = read_two_words(reader)?;
        Ok(AddressValue { address, value })
    }
}

/// The status word and event counter a server reports.
#[derive(Clone, Copy, PartialEq, Eq, Debug, Structural)]
pub struct ModbusPDUGetComEventCounterResponse {
    pub status: u16,
    pub event_count: u16,
}

impl BodyValue for ModbusPDUGetComEventCounterResponse {
    open spec fn body(&self) -> Body {
        Body::TwoWords(self.status, self.event_count)
    }
}

impl ModbusPDUGetComEventCounterResponse {
    pub fn get_length_in_bits(&self) -> (r: u32)
        ensures
            r == 8 * body_bytes(self.body()).len(),
            r <= 8 * 0x10001,
    {
        32
    }

    pub fn serialize_body(&self, writer: &mut WriteBuffer) -> (r: usize)
        requires
            old(writer).wf(),
            old(writer).aligned(),
            old(writer).endianness == Endianess::BigEndian,
        ensures
            final(writer).wf(),
            final(writer).aligned(),
            final(writer).endianness == old(writer).endianness,
            final(writer).writer@ == old(writer).writer@ + body_bytes(self.body()),
            r == body_bytes(self.body()).len(),
            r <= 0x10001,
    {
        let r = write_two_words(writer, self.status, self.event_count);
        assert(writer.writer@ =~= old(writer).writer@ + body_bytes(self.body()));
        r
    }

    pub fn parse(reader: &mut ReadBuffer) -> (r: Result<ModbusPDUGetComEventCounterResponse, DecodeError>)
        requires
            old(reader).wf(),
            old(reader).aligned(),
            old(reader).endianness == Endianess::BigEndian,
        ensures
            final(reader).wf(),
            final(reader).aligned(),
            final(reader).same_source(old(reader)),
            parsed_body(r, BodyShape::TwoWords, old(reader).rest(), old(reader).position as nat, final(reader).position as nat),
    {
        let (status, event_count) = read_two_words(reader)?;
        Ok(ModbusPDUGetComEventCounterResponse { status, event_count })
    }
}

/// Raw bytes preceded on the wire by their count: coil or register contents, or a
/// server's identification.
#[derive(Clone, PartialEq, Eq, Debug)]
pub struct ByteValues {
    pub value: Vec<u8>,
}

impl BodyValue for ByteValues {
    open spec fn body(&self) -> Body {
        Body::Bytes(self.value@)
    }
}

impl ByteValues {
    /// The byte count written before the bytes.
    pub fn byte_count(&self) -> (r: u8)
        requires
            self.value@.len() <= 255,
        ensures
            r == self.value@.len(),
    {
        self.value.len() as u8
    }

    /// Whether the byte count fits in its 8-bit field.
    pub fn fits(&self) -> (r: bool)
        ensures
            r == crate::modbus::pdu_body::body_fits(self.body()),
    {
        self.value.len() <= 255
    }

    pub fn get_length_in_bits(&self) -> (r: u32)
        requires
            self.value@.len() <= 255,
        ensures
            r == 8 * body_bytes(self.body()).len(),
            r <= 8 * 0x10001,
    {
        (8 * (1 + self.value.len())) as u32
    }

    pub fn serialize_body(&self, writer: &mut WriteBuffer) -> (r: usize)
        requires
            old(writer).wf(),
            old(writer).aligned(),
            self.value@.len() <= 255,
        ensures
            final(writer).wf(),
            final(writer).aligned(),
            final(writer).endianness == old(writer).endianness,
            final(writer).writer@ == old(writer).writer@ + body_bytes(self.body()),
            r == body_bytes(self.body()).len(),
            r <= 0x10001,
    {
        let n = writer.write_u8(self.byte_count());
        let r = n + writer.write_bytes(self.value.as_slice());
        assert(writer.writer@ =~= old(writer).writer@ + body_bytes(self.body()));
        r
    }

    pub fn parse(reader: &mut ReadBuffer) -> (r: Result<ByteValues, DecodeError>)
        requires
            old(reader).wf(),
            old(reader).aligned(),
        ensures
            final(reader).wf(),
            final(reader).aligned(),
            final(reader).same_source(old(reader)),
            parsed_body(r, BodyShape::Bytes, old(reader).rest(), old(reader).position as nat, final(reader).position as nat),
    {
        let ghost rest = reader.rest();
        let byte_count = reader.read_u8()?;
        let value = reader.read_bytes(byte_count as usize)?;
        assert(value@ =~= rest.subrange(1, 1 + rest[0]));
        Ok(ByteValues { value })
    }
}

/// A block of coils or registers and the bytes written to it; the byte count is
/// derived from the bytes.
#[derive(Clone, PartialEq, Eq, Debug)]
pub struct AddressQuantityValues {
    pub starting_address: u16,
    pub quantity: u16,
    pub value: Vec<u8>,
}

impl BodyValue for AddressQuantityValues {
    open spec fn body(&self) -> Body {
        Body::TwoWordsBytes(self.starting_address, self.quantity, self.value@)
    }
}

impl AddressQuantityValues {
    pub fn fits(&self) -> (r: bool)
        ensures
            r == crate::modbus::pdu_body::body_fits(self.body()),
    {
        self.value.len() <= 255
    }

    pub fn get_length_in_bits(&self) -> (r: u32)
        requires
            self.value@.len() <= 255,
        ensures
            r == 8 * body_bytes(self.body()).len(),
            r <= 8 * 0x10001,
    {
        (8 * (5 + self.value.len())) as u32
    }

    pub fn serialize_body(&self, writer: &mut WriteBuffer) -> (r: usize)
        requires
            old(writer).wf(),
            old(writer).aligned(),
            old(writer).endianness == Endianess::BigEndian,
            self.value@.len() <= 255,
        ensures
            final(writer).wf(),
            final(writer).aligned(),
            final(writer).endianness == old(writer).endianness,
            final(writer).writer@ == old(writer).writer@ + body_bytes(self.body()),
            r == body_bytes(self.body()).len(),
            r <= 0x10001,
    {
        let mut n = write_two_words(writer, self.starting_address, self.quantity);
        n = n + writer.write_u8(self.value.len() as u8);
        n = n + writer.write_bytes(self.value.as_slice());
        assert(writer.writer@ =~= old(writer).writer@ + body_bytes(self.body()));
        n
    }

    pub fn parse(reader: &mut ReadBuffer) -> (r: Result<AddressQuantityValues, DecodeError>)
        requires
            old(reader).wf(),
            old(reader).aligned(),
            old(reader).endianness == Endianess::BigEndian,
        ensures
            final(reader).wf(),
            final(reader).aligned(),
            final(reader).same_source(old(reader)),
            parsed_body(r, BodyShape::TwoWordsBytes, old(reader).rest(), old(reader).position as nat, final(reader).position as nat),
    {
        let ghost rest = reader.rest();
        if reader.remaining() < 5 {
            return Err(DecodeError::TruncatedInput);
        }
        let (starting_address, quantity) = read_two_words(reader)?;
        let byte_count = reader.read_u8()?;
        let value = reader.read_bytes(byte_count as usize)?;
        assert(value@ =~= rest.subrange(5, 5 + rest[4]));
        Ok(AddressQuantityValues { starting_address, quantity, value })
    }
}

/// Sub-requests of a read-file-record request; their byte count is derived from them.
#[derive(Clone, PartialEq, Eq, Debug)]
pub struct ModbusPDUReadFileRecordRequest {
    pub items: Vec<ModbusPDUReadFileRecordRequestItem>,
}

impl BodyValue for ModbusPDUReadFileRecordRequest {
    open spec fn body(&self) -> Body {
        Body::FileRecordRequests(self.items@)
    }
}

impl ModbusPDUReadFileRecordRequest {
    pub fn fits(&self) -> (r: bool)
        ensures
            r == crate::modbus::pdu_body::body_fits(self.body()),
    {
        self.items.len() <= 36
    }

    pub fn get_length_in_bits(&self) -> (r: u32)
        requires
            7 * self.items@.len() <= 255,
        ensures
            r == 8 * body_bytes(self.body()).len(),
            r <= 8 * 0x10001,
    {
        proof {
            crate::modbus::pdu_body::lemma_items_bytes(self.items@);
        }
        (8 * (1 + 7 * self.items.len())) as u32
    }

    pub fn serialize_body(&self, writer: &mut WriteBuffer) -> (r: usize)
        requires
            old(writer).wf(),
            old(writer).aligned(),
            old(writer).endianness == Endianess::BigEndian,
            7 * self.items@.len() <= 255,
        ensures
            final(writer).wf(),
            final(writer).aligned(),
            final(writer).endianness == old(writer).endianness,
            final(writer).writer@ == old(writer).writer@ + body_bytes(self.body()),
            r == body_bytes(self.body()).len(),
            r <= 0x10001,
    {
        let ghost start = writer.writer@;
        let mut n = writer.write_u8((7 * self.items.len()) as u8);
        let mut i: usize = 0;
        while i < self.items.len()
            invariant
                writer.wf(),
                writer.aligned(),
                writer.endianness == Endianess::BigEndian,
                i <= self.items@.len(),
                7 * self.items@.len() <= 255,
                writer.writer@ == start + seq![(7 * self.items@.len()) as u8] + items_bytes(
                    self.items@.subrange(0, i as int),
                ),
                n == 1 + 7 * i,
            decreases self.items@.len() - i,
        {
            let item = self.items[i];
            let k = item.serialize(writer);
            proof {
                let p = self.items@.subrange(0, i + 1);
                assert(p.drop_last() =~= self.items@.subrange(0, i as int));
            }
            n = n + 7;
            i = i + 1;
        }
        proof {
            assert(self.items@.subrange(0, i as int) =~= self.items@);
            crate::modbus::pdu_body::lemma_items_bytes(self.items@);
            assert(writer.writer@ =~= start + body_bytes(self.body()));
        }
        n
    }

    pub fn parse(reader: &mut ReadBuffer) -> (r: Result<ModbusPDUReadFileRecordRequest, DecodeError>)
        requires
            old(reader).wf(),
            old(reader).aligned(),
            old(reader).endianness == Endianess::BigEndian,
        ensures
            final(reader).wf(),
            final(reader).aligned(),
            final(reader).same_source(old(reader)),
            parsed_body(r, BodyShape::FileRecordRequests, old(reader).rest(), old(reader).position as nat, final(reader).position as nat),
    {
        let ghost rest = reader.rest();
        let ghost origin = reader.position;
        let byte_count = reader.read_u8()?;
        if reader.remaining() < byte_count as usize {
            return Err(DecodeError::TruncatedInput);
        }
        if byte_count % 7 != 0 {
            return Err(DecodeError::LengthMismatch);
        }
        let count = byte_count / 7;
        let mut items: Vec<ModbusPDUReadFileRecordRequestItem> = Vec::new();
        let mut i: u8 = 0;
        while i < count
            invariant
                reader.wf(),
                reader.aligned(),
                reader.endianness == Endianess::BigEndian,
                reader.data@ == old(reader).data@,
                rest == old(reader).rest(),
                origin == old(reader).position,
                byte_count == rest[0],
                byte_count % 7 == 0,
                count == byte_count / 7,
                rest.len() >= 1 + byte_count,
                i <= count,
                reader.position == origin + 1 + 7 * i,
                items@ == Seq::new(i as nat, |j: int| request_item_at(rest, 1 + 7 * j)),
            decreases count - i,
        {
            proof {
                assert(reader.rest().len() >= 7);
                assert forall|k: int| 0 <= k < 7 implies #[trigger] reader.rest()[k] == rest[1 + 7 * i + k] by {}
            }
            let ghost before = reader.rest();
            let item = ModbusPDUReadFileRecordRequestItem::parse(reader, NoOption {})?;
            proof {
                assert(item == request_item_at(rest, 1 + 7 * i)) by {
                    assert(before[0] == rest[1 + 7 * i]);
                    assert(before[1] == rest[1 + 7 * i + 1] && before[2] == rest[1 + 7 * i + 2]);
                    assert(before[3] == rest[1 + 7 * i + 3] && before[4] == rest[1 + 7 * i + 4]);
                    assert(before[5] == rest[1 + 7 * i + 5] && before[6] == rest[1 + 7 * i + 6]);
                }
            }
            items.push(item);
            assert(items@ =~= Seq::new((i + 1) as nat, |j: int| request_item_at(rest, 1 + 7 * j)));
            i = i + 1;
        }
        Ok(ModbusPDUReadFileRecordRequest { items })
    }
}

/// Asks for the contents of the FIFO queue at a register address.
#[derive(Clone, Copy, PartialEq, Eq, Debug, Structural)]
pub struct ModbusPDUReadFifoQueueRequest {
    pub fifo_pointer_address: u16,
}

impl BodyValue for ModbusPDUReadFifoQueueRequest {
    open spec fn body(&self) -> Body {
        Body::Word(self.fifo_pointer_address)
    }
}

impl ModbusPDUReadFifoQueueRequest {
    pub fn get_length_in_bits(&self) -> (r: u32)
        ensures
            r == 8 * body_bytes(self.body()).len(),
            r <= 8 * 0x10001,
    {
        16
    }

    pub fn serialize_body(&self, writer: &mut WriteBuffer) -> (r: usize)
        requires
            old(writer).wf(),
            old(writer).aligned(),
            old(writer).endianness == Endianess::BigEndian,
        ensures
            final(writer).wf(),
            final(writer).aligned(),
            final(writer).endianness == old(writer).endianness,
            final(writer).writer@ == old(writer).writer@ + body_bytes(self.body()),
            r == body_bytes(self.body()).len(),
            r <= 0x10001,
    {
        writer.write_u16(self.fifo_pointer_address)
    }

    pub fn parse(reader: &mut ReadBuffer) -> (r: Result<ModbusPDUReadFifoQueueRequest, DecodeError>)
        requires
            old(reader).wf(),
            old(reader).aligned(),
            old(reader).endianness == Endianess::BigEndian,
        ensures
            final(reader).wf(),
            final(reader).aligned(),
            final(reader).same_source(old(reader)),
            parsed_body(r, BodyShape::Word, old(reader).rest(), old(reader).position as nat, final(reader).position as nat),
    {
        let fifo_pointer_address = reader.read_u16()?;
        Ok(ModbusPDUReadFifoQueueRequest { fifo_pointer_address })
    }
}

/// The registers held in a FIFO queue; both counts before them are derived.
#[derive(Clone, PartialEq, Eq, Debug)]
pub struct ModbusPDUReadFifoQueueResponse {
    pub fifo_value: Vec<u16>,
}

impl BodyValue for ModbusPDUReadFifoQueueResponse {
    open spec fn body(&self) -> Body {
        Body::Words(self.fifo_value@)
    }
}

impl ModbusPDUReadFifoQueueResponse {
    pub fn fits(&self) -> (r: bool)
        ensures
            r == crate::modbus::pdu_body::body_fits(self.body()),
    {
        self.fifo_value.len() <= 32766
    }

    pub fn get_length_in_bits(&self) -> (r: u32)
        requires
            2 * self.fifo_value@.len() + 2 <= 0xFFFF,
        ensures
            r == 8 * body_bytes(self.body()).len(),
            r <= 8 * 0x10001,
    {
        proof {
            crate::modbus::pdu_body::lemma_words_bytes(self.fifo_value@);
        }
        (8 * (4 + 2 * self.fifo_value.len())) as u32
    }

    pub fn serialize_body(&self, writer: &mut WriteBuffer) -> (r: usize)
        requires
            old(writer).wf(),
            old(writer).aligned(),
            old(writer).endianness == Endianess::BigEndian,
            2 * self.fifo_value@.len() + 2 <= 0xFFFF,
        ensures
            final(writer).wf(),
            final(writer).aligned(),
            final(writer).endianness == old(writer).endianness,
            final(writer).writer@ == old(writer).writer@ + body_bytes(self.body()),
            r == body_bytes(self.body()).len(),
            r <= 0x10001,
    {
        let ghost start = writer.writer@;
        let count = self.fifo_value.len() as u16;
        let mut n = write_two_words(writer, 2 * count + 2, count);
        let ghost head = writer.writer@;
        let mut i: usize = 0;
        while i < self.fifo_value.len()
            invariant
                writer.wf(),
                writer.aligned(),
                writer.endianness == Endianess::BigEndian,
                i <= self.fifo_value@.len(),
                2 * self.fifo_value@.len() + 2 <= 0xFFFF,
                writer.writer@ == head + words_bytes(self.fifo_value@.subrange(0, i as int)),
                n == 4 + 2 * i,
            decreases self.fifo_value@.len() - i,
        {
            let v = self.fifo_value[i];
            writer.write_u16(v);
            proof {
                let p = self.fifo_value@.subrange(0, i + 1);
                assert(p.drop_last() =~= self.fifo_value@.subrange(0, i as int));
                assert(writer.writer@ =~= head + words_bytes(p));
            }
            n = n + 2;
            i = i + 1;
        }
        proof {
            assert(self.fifo_value@.subrange(0, i as int) =~= self.fifo_value@);
            crate::modbus::pdu_body::lemma_words_bytes(self.fifo_value@);
            assert(writer.writer@ =~= start + body_bytes(self.body()));
        }
        n
    }

    pub fn parse(reader: &mut ReadBuffer) -> (r: Result<ModbusPDUReadFifoQueueResponse, DecodeError>)
        requires
            old(reader).wf(),
            old(reader).aligned(),
            old(reader).endianness == Endianess::BigEndian,
        ensures
            final(reader).wf(),
            final(reader).aligned(),
            final(reader).same_source(old(reader)),
            parsed_body(r, BodyShape::Words, old(reader).rest(), old(reader).position as nat, final(reader).position as nat),
    {
        let ghost rest = reader.rest();
        let ghost origin = reader.position;
        let (byte_count, fifo_count) = read_two_words(reader)?;
        if byte_count as u32 != 2 * fifo_count as u32 + 2 {
            return Err(DecodeError::LengthMismatch);
        }
        if reader.remaining() / 2 < fifo_count as usize {
            return Err(DecodeError::TruncatedInput);
        }
        let mut fifo_value: Vec<u16> = Vec::new();
        let mut i: u16 = 0;
        while i < fifo_count
            invariant
                reader.wf(),
                reader.aligned(),
                reader.endianness == Endianess::BigEndian,
                reader.data@ == old(reader).data@,
                rest == old(reader).rest(),
                origin == old(reader).position,
                fifo_count == be16_at(rest, 2),
                rest.len() >= 4 + 2 * fifo_count,
                i <= fifo_count,
                reader.position == origin + 4 + 2 * i,
                fifo_value@ == Seq::new(i as nat, |j: int| be16_at(rest, 4 + 2 * j)),
            decreases fifo_count - i,
        {
            let ghost before = reader.rest();
            assert(before.len() >= 2);
            let v = reader.read_u16()?;
            proof {
                assert(before[0] == rest[4 + 2 * i] && before[1] == rest[4 + 2 * i + 1]);
            }
            fifo_value.push(v);
            assert(fifo_value@ =~= Seq::new((i + 1) as nat, |j: int| be16_at(rest, 4 + 2 * j)));
            i = i + 1;
        }
        Ok(ModbusPDUReadFifoQueueResponse { fifo_value })
    }
}

/// One record returned by a read-file-record response: its reference type and data.
#[derive(Clone, PartialEq, Eq, Debug)]
pub struct ModbusPDUReadFileRecordResponseItem {
    pub reference_type: u8,
    pub data: Vec<u8>,
}

/// Decoding continues from `r` with the sub-responses `p` already read.
pub open spec fn after_records(
    p: Seq<(u8, Seq<u8>)>,
    r: Result<Seq<(u8, Seq<u8>)>, DecodeError>,
) -> Result<Seq<(u8, Seq<u8>)>, DecodeError> {
    match r {
        Ok(v) => Ok(p + v),
        Err(e) => Err(e),
    }
}

/// The records of a read-file-record response; the byte count before them and the data
/// length of each are derived.
#[derive(Clone, PartialEq, Eq, Debug)]
pub struct ModbusPDUReadFileRecordResponse {
    pub items: Vec<ModbusPDUReadFileRecordResponseItem>,
}

impl ModbusPDUReadFileRecordResponse {
    pub open spec fn records(&self) -> Seq<(u8, Seq<u8>)> {
        self.items@.map_values(|it: ModbusPDUReadFileRecordResponseItem| (it.reference_type, it.data@))
    }
}

impl BodyValue for ModbusPDUReadFileRecordResponse {
    open spec fn body(&self) -> Body {
        Body::ReadFileRecords(self.records())
    }
}

impl ModbusPDUReadFileRecordResponse {
    /// Whether every data length and the total byte count fit in a byte.
    pub fn fits(&self) -> (r: bool)
        ensures
            r == crate::modbus::pdu_body::body_fits(self.body()),
    {
        let ghost v = self.records();
        let mut total: usize = 0;
        let mut i: usize = 0;
        while i < self.items.len()
            invariant
                v == self.records(),
                i <= v.len(),
                total == read_records_bytes(v.subrange(0, i as int)).len(),
                total <= 255,
                forall|j: int| 0 <= j < i ==> (#[trigger] v[j]).1.len() <= 254,
            decreases v.len() - i,
        {
            let n = self.items[i].data.len();
            proof {
                assert(v.subrange(0, i + 1) =~= v.subrange(0, i as int) + seq![v[i as int]]);
                lemma_read_records_bytes_append(v.subrange(0, i as int), seq![v[i as int]]);
                crate::modbus::pdu_body::lemma_read_records_bytes_single(v[i as int]);
                assert(v =~= v.subrange(0, i + 1) + v.subrange(i + 1, v.len() as int));
                lemma_read_records_bytes_append(v.subrange(0, i + 1), v.subrange(i + 1, v.len() as int));
            }
            if n > 254 || total + 2 + n > 255 {
                return false;
            }
            total = total + 2 + n;
            i = i + 1;
        }
        assert(v.subrange(0, i as int) =~= v);
        true
    }

    pub fn get_length_in_bits(&self) -> (r: u32)
        requires
            read_records_fit(self.records()),
        ensures
            r == 8 * body_bytes(self.body()).len(),
            r <= 8 * 0x10001,
    {
        let ghost v = self.records();
        let mut total: u32 = 0;
        let mut i: usize = 0;
        while i < self.items.len()
            invariant
                v == self.records(),
                read_records_fit(v),
                i <= v.len(),
                total == read_records_bytes(v.subrange(0, i as int)).len(),
            decreases v.len() - i,
        {
            proof {
                assert(v.subrange(0, i + 1) =~= v.subrange(0, i as int) + seq![v[i as int]]);
                lemma_read_records_bytes_append(v.subrange(0, i as int), seq![v[i as int]]);
                crate::modbus::pdu_body::lemma_read_records_bytes_single(v[i as int]);
                assert(v =~= v.subrange(0, i + 1) + v.subrange(i + 1, v.len() as int));
                lemma_read_records_bytes_append(v.subrange(0, i + 1), v.subrange(i + 1, v.len() as int));
            }
            total = total + 2 + self.items[i].data.len() as u32;
            i = i + 1;
        }
        assert(v.subrange(0, i as int) =~= v);
        8 * (1 + total)
    }

    pub fn serialize_body(&self, writer: &mut WriteBuffer) -> (r: usize)
        requires
            old(writer).wf(),
            old(writer).aligned(),
            old(writer).endianness == Endianess::BigEndian,
            read_records_fit(self.records()),
        ensures
            final(writer).wf(),
            final(writer).aligned(),
            final(writer).endianness == old(writer).endianness,
            final(writer).writer@ == old(writer).writer@ + body_bytes(self.body()),
            r == body_bytes(self.body()).len(),
            r <= 0x10001,
    {
        let ghost v = self.records();
        let total = (self.get_length_in_bits() / 8 - 1) as u8;
        let ghost start = writer.writer@;
        let mut n = writer.write_u8(total);
        let mut i: usize = 0;
        while i < self.items.len()
            invariant
                v == self.records(),
                read_records_fit(v),
                writer.wf(),
                writer.aligned(),
                writer.endianness == Endianess::BigEndian,
                i <= v.len(),
                writer.writer@ == start + seq![total] + read_records_bytes(v.subrange(0, i as int)),
                n == 1 + read_records_bytes(v.subrange(0, i as int)).len(),
            decreases v.len() - i,
        {
            let item = &self.items[i];
            proof {
                assert(v[i as int].1.len() <= 254);
                assert(v.subrange(0, i + 1) =~= v.subrange(0, i as int) + seq![v[i as int]]);
                lemma_read_records_bytes_append(v.subrange(0, i as int), seq![v[i as int]]);
                crate::modbus::pdu_body::lemma_read_records_bytes_single(v[i as int]);
                assert(v =~= v.subrange(0, i + 1) + v.subrange(i + 1, v.len() as int));
                lemma_read_records_bytes_append(v.subrange(0, i + 1), v.subrange(i + 1, v.len() as int));
            }
            n = n + writer.write_u8((item.data.len() + 1) as u8);
            n = n + writer.write_u8(item.reference_type);
            n = n + writer.write_bytes(item.data.as_slice());
            assert(writer.writer@ =~= start + seq![total] + read_records_bytes(v.subrange(0, i + 1)));
            i = i + 1;
        }
        assert(v.subrange(0, i as int) =~= v);
        assert(writer.writer@ =~= start + body_bytes(self.body()));
        n
    }

    pub fn parse(reader: &mut ReadBuffer) -> (r: Result<ModbusPDUReadFileRecordResponse, DecodeError>)
        requires
            old(reader).wf(),
            old(reader).aligned(),
            old(reader).endianness == Endianess::BigEndian,
        ensures
            final(reader).wf(),
            final(reader).aligned(),
            final(reader).same_source(old(reader)),
            parsed_body(r, BodyShape::ReadFileRecords, old(reader).rest(), old(reader).position as nat, final(reader).position as nat),
    {
        let ghost rest = reader.rest();
        let ghost origin = reader.position as int;
        let ghost data = reader.data@;
        let byte_count = reader.read_u8()?;
        let len = reader.data.len();
        if reader.remaining() < byte_count as usize {
            return Err(DecodeError::TruncatedInput);
        }
        let end = reader.position + byte_count as usize;
        let ghost w = rest.subrange(1, 1 + rest[0]);
        assert(w =~= data.subrange(origin + 1, end as int));
        let mut items: Vec<ModbusPDUReadFileRecordResponseItem> = Vec::new();
        while reader.position < end
            invariant
                reader.wf(),
                reader.aligned(),
                reader.endianness == Endianess::BigEndian,
                reader.data@ == data,
                data == old(reader).data@,
                reader.position <= end <= data.len(),
                old(reader).endianness == Endianess::BigEndian,
                rest == old(reader).rest(),
                origin == old(reader).position,
                rest.len() >= 1 + rest[0],
                w == rest.subrange(1, 1 + rest[0]),
                w == data.subrange(origin + 1, end as int),
                parse_read_records(w) == after_records(
                    items@.map_values(|it: ModbusPDUReadFileRecordResponseItem| (it.reference_type, it.data@)),
                    parse_read_records(data.subrange(reader.position as int, end as int)),
                ),
            decreases end - reader.position,
        {
            let ghost cur = data.subrange(reader.position as int, end as int);
            let ghost q = reader.position as int;
            let data_length = reader.read_u8()?;
            if data_length == 0 || end - reader.position < data_length as usize {
                return Err(DecodeError::LengthMismatch);
            }
            let reference_type = reader.read_u8()?;
            let record = reader.read_bytes((data_length - 1) as usize)?;
            let ghost item = (reference_type, record@);
            proof {
                assert(cur[0] == data_length);
                assert(item == (cur[1], cur.subrange(2, 1 + cur[0])));
                assert(cur.subrange(1 + cur[0], cur.len() as int) =~= data.subrange(
                    reader.position as int,
                    end as int,
                ));
            }
            let ghost before = items@.map_values(|it: ModbusPDUReadFileRecordResponseItem| (it.reference_type, it.data@));
            items.push(ModbusPDUReadFileRecordResponseItem { reference_type, data: record });
            proof {
                assert(items@.map_values(|it: ModbusPDUReadFileRecordResponseItem| (it.reference_type, it.data@))
                    =~= before.push(item));
                assert(before.push(item) =~= before + seq![item]);
                match parse_read_records(data.subrange(reader.position as int, end as int)) {
                    Ok(tail) => {
                        assert(before + (seq![item] + tail) =~= before.push(item) + tail);
                    },
                    Err(_) => {},
                }
            }
        }
        assert(data.subrange(reader.position as int, end as int) =~= Seq::<u8>::empty());
        let r = ModbusPDUReadFileRecordResponse { items };
        assert(r.records() + Seq::<(u8, Seq<u8>)>::empty() =~= r.records());
        Ok(r)
    }
}

/// Decoding continues from `r` with the records `p` already read.
pub open spec fn after_writes(
    p: Seq<(u8, u16, u16, Seq<u8>)>,
    r: Result<Seq<(u8, u16, u16, Seq<u8>)>, DecodeError>,
) -> Result<Seq<(u8, u16, u16, Seq<u8>)>, DecodeError> {
    match r {
        Ok(v) => Ok(p + v),
        Err(e) => Err(e),
    }
}

/// The records of a write-file-record request, or of the response that echoes them; the
/// byte count before them is derived.
#[derive(Clone, PartialEq, Eq, Debug)]
pub struct FileRecords {
    pub items: Vec<ModbusPDUWriteFileRecordResponseItem>,
}

impl FileRecords {
    pub open spec fn records(&self) -> Seq<(u8, u16, u16, Seq<u8>)> {
        self.items@.map_values(
            |it: ModbusPDUWriteFileRecordResponseItem|
                (it.reference_type, it.file_number, it.record_number, it.record_data@),
        )
    }
}

impl BodyValue for FileRecords {
    open spec fn body(&self) -> Body {
        Body::WriteFileRecords(self.records())
    }
}

proof fn lemma_write_prefix_step(v: Seq<(u8, u16, u16, Seq<u8>)>, i: int)
    requires
        0 <= i < v.len(),
    ensures
        write_records_bytes(v.subrange(0, i + 1)).len() == write_records_bytes(v.subrange(0, i)).len() + 7
            + v[i].3.len(),
        write_records_bytes(v.subrange(0, i + 1)) == write_records_bytes(v.subrange(0, i))
            + crate::modbus::pdu_body::write_record_bytes(v[i]),
        write_records_bytes(v).len() >= write_records_bytes(v.subrange(0, i + 1)).len(),
{
    assert(v.subrange(0, i + 1) =~= v.subrange(0, i) + seq![v[i]]);
    lemma_write_records_bytes_append(v.subrange(0, i), seq![v[i]]);
    lemma_write_records_bytes_single(v[i]);
    assert(v =~= v.subrange(0, i + 1) + v.subrange(i + 1, v.len() as int));
    lemma_write_records_bytes_append(v.subrange(0, i + 1), v.subrange(i + 1, v.len() as int));
}

impl FileRecords {
    /// Whether every record is whole registers and the total byte count fits in a byte.
    pub fn fits(&self) -> (r: bool)
        ensures
            r == crate::modbus::pdu_body::body_fits(self.body()),
    {
        let ghost v = self.records();
        let mut total: usize = 0;
        let mut i: usize = 0;
        while i < self.items.len()
            invariant
                v == self.records(),
                i <= v.len(),
                total == write_records_bytes(v.subrange(0, i as int)).len(),
                total <= 255,
                forall|j: int| 0 <= j < i ==> crate::modbus::file_record::record_data_fits((#[trigger] v[j]).3),
            decreases v.len() - i,
        {
            let n = self.items[i].record_data.len();
            proof {
                lemma_write_prefix_step(v, i as int);
            }
            if n % 2 != 0 || n / 2 > 0xFFFF || total + 7 + n > 255 {
                return false;
            }
            total = total + 7 + n;
            i = i + 1;
        }
        assert(v.subrange(0, i as int) =~= v);
        true
    }

    pub fn get_length_in_bits(&self) -> (r: u32)
        requires
            write_records_fit(self.records()),
        ensures
            r == 8 * body_bytes(self.body()).len(),
            r <= 8 * 0x10001,
    {
        let ghost v = self.records();
        let mut total: u32 = 0;
        let mut i: usize = 0;
        while i < self.items.len()
            invariant
                v == self.records(),
                write_records_fit(v),
                i <= v.len(),
                total == write_records_bytes(v.subrange(0, i as int)).len(),
            decreases v.len() - i,
        {
            proof {
                lemma_write_prefix_step(v, i as int);
            }
            total = total + 7 + self.items[i].record_data.len() as u32;
            i = i + 1;
        }
        assert(v.subrange(0, i as int) =~= v);
        8 * (1 + total)
    }

    pub fn serialize_body(&self, writer: &mut WriteBuffer) -> (r: usize)
        requires
            old(writer).wf(),
            old(writer).aligned(),
            old(writer).endianness == Endianess::BigEndian,
            write_records_fit(self.records()),
        ensures
            final(writer).wf(),
            final(writer).aligned(),
            final(writer).endianness == old(writer).endianness,
            final(writer).writer@ == old(writer).writer@ + body_bytes(self.body()),
            r == body_bytes(self.body()).len(),
            r <= 0x10001,
    {
        let ghost v = self.records();
        let total = (self.get_length_in_bits() / 8 - 1) as u8;
        let ghost start = writer.writer@;
        let mut n = writer.write_u8(total);
        let mut i: usize = 0;
        while i < self.items.len()
            invariant
                v == self.records(),
                write_records_fit(v),
                writer.wf(),
                writer.aligned(),
                writer.endianness == Endianess::BigEndian,
                i <= v.len(),
                writer.writer@ == start + seq![total] + write_records_bytes(v.subrange(0, i as int)),
                n == 1 + write_records_bytes(v.subrange(0, i as int)).len(),
            decreases v.len() - i,
        {
            let item = &self.items[i];
            proof {
                lemma_write_prefix_step(v, i as int);
                assert(crate::modbus::file_record::record_data_fits(v[i as int].3));
            }
            let k = item.serialize(writer);
            n = n + match k {
                Ok(k) => k,
                Err(_) => 0,
            };
            assert(writer.writer@ =~= start + seq![total] + write_records_bytes(v.subrange(0, i + 1)));
            i = i + 1;
        }
        assert(v.subrange(0, i as int) =~= v);
        assert(writer.writer@ =~= start + body_bytes(self.body()));
        n
    }

    pub fn parse(reader: &mut ReadBuffer) -> (r: Result<FileRecords, DecodeError>)
        requires
            old(reader).wf(),
            old(reader).aligned(),
            old(reader).endianness == Endianess::BigEndian,
        ensures
            final(reader).wf(),
            final(reader).aligned(),
            final(reader).same_source(old(reader)),
            parsed_body(r, BodyShape::WriteFileRecords, old(reader).rest(), old(reader).position as nat, final(reader).position as nat),
    {
        let ghost rest = reader.rest();
        let ghost origin = reader.position as int;
        let ghost data = reader.data@;
        let byte_count = reader.read_u8()?;
        let len = reader.data.len();
        if reader.remaining() < byte_count as usize {
            return Err(DecodeError::TruncatedInput);
        }
        let end = reader.position + byte_count as usize;
        let ghost w = rest.subrange(1, 1 + rest[0]);
        assert(w =~= data.subrange(origin + 1, end as int));
        let mut items: Vec<ModbusPDUWriteFileRecordResponseItem> = Vec::new();
        while reader.position < end
            invariant
                reader.wf(),
                reader.aligned(),
                reader.endianness == Endianess::BigEndian,
                reader.data@ == data,
                data == old(reader).data@,
                len == data.len(),
                reader.position <= end <= data.len(),
                old(reader).endianness == Endianess::BigEndian,
                rest == old(reader).rest(),
                origin == old(reader).position,
                rest.len() >= 1 + rest[0],
                w == rest.subrange(1, 1 + rest[0]),
                w == data.subrange(origin + 1, end as int),
                parse_write_records(w) == after_writes(
                    items@.map_values(
                        |it: ModbusPDUWriteFileRecordResponseItem|
                            (it.reference_type, it.file_number, it.record_number, it.record_data@),
                    ),
                    parse_write_records(data.subrange(reader.position as int, end as int)),
                ),
            decreases end - reader.position,
        {
            let ghost cur = data.subrange(reader.position as int, end as int);
            let pos = reader.position;
            if end - pos < 7 {
                return Err(DecodeError::LengthMismatch);
            }
            let count = reader.data[pos + 5] as usize * 256 + reader.data[pos + 6] as usize;
            assert(count == be16_at(cur, 5));
            if end - pos - 7 < 2 * count {
                return Err(DecodeError::LengthMismatch);
            }
            let ghost full = reader.rest();
            let item = ModbusPDUWriteFileRecordResponseItem::parse(reader, NoOption {})?;
            let ghost x = (item.reference_type, item.file_number, item.record_number, item.record_data@);
            proof {
                assert(full[5] == cur[5] && full[6] == cur[6]);
                assert(full[0] == cur[0] && full[1] == cur[1] && full[2] == cur[2]);
                assert(full[3] == cur[3] && full[4] == cur[4]);
                assert(full.subrange(7, 7 + 2 * count) =~= cur.subrange(7, 7 + 2 * count));
                assert(x == (cur[0], be16_at(cur, 1), be16_at(cur, 3), cur.subrange(7, 7 + 2 * be16_at(cur, 5))));
                assert(cur.subrange(7 + 2 * be16_at(cur, 5), cur.len() as int) =~= data.subrange(
                    reader.position as int,
                    end as int,
                ));
            }
            let ghost before = items@.map_values(
                |it: ModbusPDUWriteFileRecordResponseItem|
                    (it.reference_type, it.file_number, it.record_number, it.record_data@),
            );
            items.push(item);
            proof {
                assert(items@.map_values(
                    |it: ModbusPDUWriteFileRecordResponseItem|
                        (it.reference_type, it.file_number, it.record_number, it.record_data@),
                ) =~= before.push(x));
                assert(before.push(x) =~= before + seq![x]);
                match parse_write_records(data.subrange(reader.position as int, end as int)) {
                    Ok(tail) => {
                        assert(before + (seq![x] + tail) =~= before.push(x) + tail);
                    },
                    Err(_) => {},
                }
            }
        }
        assert(data.subrange(reader.position as int, end as int) =~= Seq::<u8>::empty());
        let r = FileRecords { items };
        assert(r.records() + Seq::<(u8, u16, u16, Seq<u8>)>::empty() =~= r.records());
        Ok(r)
    }
}

} // verus!
