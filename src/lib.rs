use vstd::prelude::*;

use crate::read_buffer::ReadBuffer;
use crate::write_buffer::WriteBuffer;

pub mod checksum;
pub mod modbus;
pub mod read_buffer;
pub mod write_buffer;

verus! {

/// Byte order applied to multi-byte integer fields.
#[derive(Clone, Copy, PartialEq, Eq, Debug, Structural)]
pub enum Endianess {
    LittleEndian,
    BigEndian,
}

/// The empty context, for messages whose decoding needs none.
#[derive(Clone, Copy, PartialEq, Eq, Debug, Structural)]
pub struct NoOption {}

/// What selects a variant when decoding.
#[derive(Clone, Copy, PartialEq, Eq, Debug, Structural)]
pub enum Discriminant {
    /// The error flag, function code and direction of a message.
    Message { error_flag: bool, function_code: u8, response: bool },
    /// The tag of an enumeration value.
    Tag { tag: u64 },
}

/// Why a byte sequence could not be decoded.
#[derive(Clone, Copy, PartialEq, Eq, Debug, Structural)]
pub enum DecodeError {
    /// The input ended before a field was complete.
    TruncatedInput,
    /// A discriminant selects no known variant.
    UnknownDiscriminant(Discriminant),
    /// A field with a fixed value held another.
    InvalidConstant,
    /// A length or count field disagrees with the payload around it.
    LengthMismatch,
    /// The frame's checksum does not match its content.
    ChecksumMismatch,
}

/// Why a value could not be encoded.
#[derive(Clone, Copy, PartialEq, Eq, Debug, Structural)]
pub enum EncodeError {
    /// A field, or a count derived from a collection, does not fit in its width on the wire.
    ValueOutOfRange,
}

/// The codec contract of a wire message: its exact length, how it is written, and how
/// it is read given a context (`NoOption` where none is needed).
pub trait Message: Sized {
    type P;

    /// Every field and derived count of the value fits on the wire.
    spec fn encodable(&self) -> bool;

    /// The wire bytes of the value.
    spec fn encoding(&self) -> Seq<u8>;

    /// Decoding from the front of `rest` with context `parameter` gives `r`, having taken
    /// `n` bytes if it succeeded.
    spec fn decoded(rest: Seq<u8>, parameter: Self::P, r: Result<Self, DecodeError>, n: int) -> bool;

    fn get_length_in_bits(&self) -> (r: u32)
        requires
            self.encodable(),
        ensures
            r == 8 * self.encoding().len(),
    ;

    fn get_length_in_bytes(&self) -> (r: u32)
        requires
            self.encodable(),
        ensures
            r == self.encoding().len(),
    {
        self.get_length_in_bits() / 8
    }

    /// Writes the value; one that is not encodable is refused and nothing is written.
    fn serialize(&self, writer: &mut WriteBuffer) -> (r: Result<usize, EncodeError>)
        requires
            old(writer).wf(),
            old(writer).aligned(),
            old(writer).endianness == Endianess::BigEndian,
        ensures
            final(writer).wf(),
            final(writer).aligned(),
            final(writer).endianness == old(writer).endianness,
            self.encodable() ==> {
                &&& final(writer).writer@ == old(writer).writer@ + self.encoding()
                &&& r == Ok::<usize, EncodeError>(self.encoding().len() as usize)
            },
            !self.encodable() ==> {
                &&& final(writer).writer@ == old(writer).writer@
                &&& r == Err::<usize, EncodeError>(EncodeError::ValueOutOfRange)
            },
    ;

    fn parse(reader: &mut ReadBuffer, parameter: Self::P) -> (r: Result<Self, DecodeError>)
        requires
            old(reader).wf(),
            old(reader).aligned(),
            old(reader).endianness == Endianess::BigEndian,
        ensures
            final(reader).wf(),
            final(reader).aligned(),
            final(reader).same_source(old(reader)),
            Self::decoded(old(reader).rest(), parameter, r, final(reader).position - old(reader).position),
    ;
}

} // verus!
