use vstd::arithmetic::power2::{lemma2_to64, lemma_pow2_pos, lemma_pow2_strictly_increases, lemma_pow2_unfold, pow2};
use vstd::bits::{lemma_u64_pow2_no_overflow, lemma_u64_shl_is_mul, lemma_u8_shr_is_div};
use vstd::prelude::*;

use crate::write_buffer::{bit_of, le_bytes, uint_bytes};
use crate::{DecodeError, Endianess};

verus! {

/// Bit `k` of a byte sequence, where the bits of each byte are numbered from its least
/// significant bit and byte `i` holds bits `8 * i` to `8 * i + 7`.
pub open spec fn bit_at(data: Seq<u8>, k: nat) -> nat {
    bit_of(data[(k / 8) as int] as nat, k % 8)
}

/// The value of the `n` bits starting at bit `c`, the first of them least significant.
pub open spec fn bits_value(data: Seq<u8>, c: nat, n: nat) -> nat
    decreases n,
{
    if n == 0 {
        0
    } else {
        bits_value(data, c, (n - 1) as nat) + bit_at(data, (c + n - 1) as nat) * pow2((n - 1) as nat)
    }
}

/// The 16-bit value of two bytes in the given byte order.
pub open spec fn u16_from(e: Endianess, b0: u8, b1: u8) -> u16 {
    match e {
        Endianess::BigEndian => (b0 * 256 + b1) as u16,
        Endianess::LittleEndian => (b1 * 256 + b0) as u16,
    }
}

/// The value of bytes taken least significant first.
pub open spec fn le_value(s: Seq<u8>) -> nat
    decreases s.len(),
{
    if s.len() == 0 {
        0
    } else {
        s[0] as nat + 256 * le_value(s.drop_first())
    }
}

/// The value of bytes in the given byte order.
pub open spec fn uint_value(e: Endianess, s: Seq<u8>) -> nat {
    match e {
        Endianess::LittleEndian => le_value(s),
        Endianess::BigEndian => le_value(s.reverse()),
    }
}

proof fn lemma_le_value_round_trip(x: nat, n: nat)
    ensures
        le_value(le_bytes(x, n)) == x % pow2(8 * n),
    decreases n,
{
    lemma2_to64();
    if n == 0 {
        assert(x % 1 == 0);
    } else {
        let m = (n - 1) as nat;
        lemma_le_value_round_trip(x / 256, m);
        let b = le_bytes(x, n);
        assert(b.drop_first() =~= le_bytes(x / 256, m));
        vstd::arithmetic::power2::lemma_pow2_adds(8, 8 * m);
        lemma_pow2_pos(8 * m);
        assert(8 + 8 * m == 8 * n);
        vstd::arithmetic::div_mod::lemma_mod_breakdown(x as int, 256, pow2(8 * m) as int);
    }
}

/// Bytes written for the `n` low bytes of `x` in either byte order are read back as `x`
/// modulo `2^(8n)`.
pub proof fn lemma_uint_round_trip(e: Endianess, x: nat, n: nat)
    ensures
        uint_value(e, uint_bytes(e, x, n)) == x % pow2(8 * n),
{
    lemma_le_value_round_trip(x, n);
    let b = le_bytes(x, n);
    crate::write_buffer::lemma_le_bytes_len(x, n);
    if b.len() > 0 {
        assert(b.reverse().reverse() =~= b);
    }
}

/// The byte a read is currently taking bits from.
pub struct BitReader {
    /// Number of bits of `value` already consumed (0 when no byte is pending).
    pub position: u8,
    pub value: u8,
}

impl BitReader {
    pub fn new() -> (r: BitReader)
        ensures
            r.position == 0,
    {
        BitReader { position: 0, value: 0 }
    }

    /// Starts on a fresh byte.
    fn fetch(&mut self, byte: u8)
        ensures
            final(self).position == 0,
            final(self).value == byte,
    {
        self.position = 0;
        self.value = byte;
    }

    /// Takes the next bit of the pending byte.
    fn read(&mut self) -> (r: u8)
        requires
            old(self).position < 8,
        ensures
            r as nat == bit_of(old(self).value as nat, old(self).position as nat),
            final(self).value == old(self).value,
            final(self).position == (old(self).position + 1) % 8,
    {
        let p = self.position;
        let r = (self.value >> p) & 1;
        proof {
            lemma_u8_shr_is_div(self.value, p);
            let sh = self.value >> p;
            assert(sh & 1 == sh % 2) by (bit_vector);
        }
        self.position = if p == 7 { 0 } else { p + 1 };
        r
    }
}

/// A byte source read field by field: fields of 1 to 64 bits, and whole bytes and
/// multi-byte integers in a fixed byte order.
pub struct ReadBuffer {
    pub endianness: Endianess,
    pub bit_reader: BitReader,
    pub data: Vec<u8>,
    /// Number of bytes taken from `data` so far.
    pub position: usize,
}

impl ReadBuffer {
    pub open spec fn wf(&self) -> bool {
        &&& self.position <= self.data@.len()
        &&& self.bit_reader.position < 8
        &&& self.bit_reader.position > 0 ==> {
            &&& self.position >= 1
            &&& self.bit_reader.value == self.data@[self.position - 1]
        }
    }

    /// No byte is partly consumed.
    pub open spec fn aligned(&self) -> bool {
        self.bit_reader.position == 0
    }

    /// Index of the next bit to be read.
    pub open spec fn cursor(&self) -> nat {
        if self.bit_reader.position == 0 {
            (8 * self.position) as nat
        } else {
            (8 * (self.position - 1) + self.bit_reader.position) as nat
        }
    }

    /// The bytes not yet read, when the reader is aligned.
    pub open spec fn rest(&self) -> Seq<u8> {
        self.data@.subrange(self.position as int, self.data@.len() as int)
    }

    /// The read keeps the source and byte order.
    pub open spec fn same_source(&self, other: &ReadBuffer) -> bool {
        self.data@ == other.data@ && self.endianness == other.endianness
    }

    pub fn new(endianess: Endianess, bytes: &[u8]) -> (r: ReadBuffer)
        ensures
            r.wf(),
            r.aligned(),
            r.endianness == endianess,
            r.data@ == bytes@,
            r.position == 0,
    {
        let mut data: Vec<u8> = Vec::new();
        data.extend_from_slice(bytes);
        assert(data@ =~= bytes@);
        ReadBuffer { endianness: endianess, bit_reader: BitReader::new(), data, position: 0 }
    }

    /// Number of bytes not yet read.
    pub fn remaining(&self) -> (r: usize)
        requires
            self.wf(),
        ensures
            r == self.data@.len() - self.position,
    {
        self.data.len() - self.position
    }

    /// Whether `n` more bits are available.
    fn has_bits(&self, n: u8) -> (r: bool)
        requires
            self.wf(),
        ensures
            r == (self.cursor() + n <= 8 * self.data@.len()),
    {
        let left = self.data.len() - self.position;
        let p = self.bit_reader.position;
        if p == 0 {
            (n as usize + 7) / 8 <= left
        } else {
            let avail = 8 - p;
            n <= avail || ((n - avail) as usize + 7) / 8 <= left
        }
    }

    /// Takes the bit at the cursor.
    fn next_bit(&mut self) -> (r: u8)
        requires
            old(self).wf(),
            old(self).cursor() < 8 * old(self).data@.len(),
        ensures
            final(self).wf(),
            final(self).same_source(old(self)),
            final(self).cursor() == old(self).cursor() + 1,
            r as nat == bit_at(old(self).data@, old(self).cursor()),
            r < 2,
    {
        if self.bit_reader.position == 0 {
            let pos = self.position;
            let len = self.data.len();
            assert(pos < len);
            let byte = self.data[pos];
            self.bit_reader.fetch(byte);
            self.position = pos + 1;
        }
        let ghost k = old(self).cursor();
        assert(k / 8 == self.position - 1 && k % 8 == self.bit_reader.position);
        self.bit_reader.read()
    }

    pub fn read_bit(&mut self) -> (r: Result<bool, DecodeError>)
        requires
            old(self).wf(),
        ensures
            final(self).wf(),
            final(self).same_source(old(self)),
            old(self).cursor() + 1 <= 8 * old(self).data@.len() ==> {
                &&& r == Ok::<bool, DecodeError>(bit_at(old(self).data@, old(self).cursor()) == 1)
                &&& final(self).cursor() == old(self).cursor() + 1
            },
            old(self).cursor() + 1 > 8 * old(self).data@.len() ==> {
                &&& r == Err::<bool, DecodeError>(DecodeError::TruncatedInput)
                &&& *final(self) == *old(self)
            },
    {
        if !self.has_bits(1) {
            return Err(DecodeError::TruncatedInput);
        }
        let b = self.next_bit();
        Ok(b == 1)
    }

    /// Reads a field of `number_of_bits` bits (at most 64). A field of whole bytes read
    /// from a byte boundary is read in the buffer's byte order; any other field is read
    /// bit by bit, the first bit least significant.
    pub fn read_u_n(&mut self, number_of_bits: u8) -> (r: Result<u64, DecodeError>)
        requires
            old(self).wf(),
            number_of_bits <= 64,
        ensures
            final(self).wf(),
            final(self).same_source(old(self)),
            old(self).aligned() && number_of_bits % 8 == 0 ==> {
                let k = number_of_bits / 8;
                if old(self).position + k <= old(self).data@.len() {
                    &&& r == Ok::<u64, DecodeError>(
                        uint_value(
                            old(self).endianness,
                            old(self).data@.subrange(old(self).position as int, old(self).position + k),
                        ) as u64,
                    )
                    &&& final(self).aligned()
                    &&& final(self).position == old(self).position + k
                } else {
                    &&& r == Err::<u64, DecodeError>(DecodeError::TruncatedInput)
                    &&& *final(self) == *old(self)
                }
            },
            !(old(self).aligned() && number_of_bits % 8 == 0) ==> {
                &&& old(self).cursor() + number_of_bits <= 8 * old(self).data@.len() ==> {
                    &&& r == Ok::<u64, DecodeError>(
                        bits_value(old(self).data@, old(self).cursor(), number_of_bits as nat) as u64,
                    )
                    &&& final(self).cursor() == old(self).cursor() + number_of_bits
                }
                &&& old(self).cursor() + number_of_bits > 8 * old(self).data@.len() ==> {
                    &&& r == Err::<u64, DecodeError>(DecodeError::TruncatedInput)
                    &&& *final(self) == *old(self)
                }
            },
    {
        if self.bit_reader.position == 0 && number_of_bits % 8 == 0 {
            self.read_uint(number_of_bits / 8)
        } else {
            self.read_bits(number_of_bits)
        }
    }

    /// Reads `number_of_bits` bits, the first of them least significant.
    fn read_bits(&mut self, number_of_bits: u8) -> (r: Result<u64, DecodeError>)
        requires
            old(self).wf(),
            number_of_bits <= 64,
        ensures
            final(self).wf(),
            final(self).same_source(old(self)),
            old(self).cursor() + number_of_bits <= 8 * old(self).data@.len() ==> {
                &&& r == Ok::<u64, DecodeError>(
                    bits_value(old(self).data@, old(self).cursor(), number_of_bits as nat) as u64,
                )
                &&& bits_value(old(self).data@, old(self).cursor(), number_of_bits as nat) < pow2(
                    number_of_bits as nat,
                )
                &&& final(self).cursor() == old(self).cursor() + number_of_bits
            },
            old(self).cursor() + number_of_bits > 8 * old(self).data@.len() ==> {
                &&& r == Err::<u64, DecodeError>(DecodeError::TruncatedInput)
                &&& *final(self) == *old(self)
            },
    {
        if !self.has_bits(number_of_bits) {
            return Err(DecodeError::TruncatedInput);
        }
        let ghost c = self.cursor();
        let ghost data = self.data@;
        let mut result: u64 = 0;
        let mut i: u8 = 0;
        proof {
            lemma2_to64();
        }
        while i < number_of_bits
            invariant
                self.wf(),
                self.data@ == data,
                self.endianness == old(self).endianness,
                c + number_of_bits <= 8 * data.len(),
                i <= number_of_bits <= 64,
                self.cursor() == c + i,
                result as nat == bits_value(data, c, i as nat),
                (result as nat) < pow2(i as nat),
            decreases number_of_bits - i,
        {
            let b = self.next_bit();
            let ghost w = pow2(i as nat);
            proof {
                lemma2_to64();
                lemma_pow2_unfold((i + 1) as nat);
                lemma_pow2_pos(i as nat);
                if i + 1 < 64 {
                    lemma_pow2_strictly_increases((i + 1) as nat, 64);
                }
                assert(pow2((i + 1) as nat) <= 0x1_0000_0000_0000_0000);
                lemma_u64_pow2_no_overflow(i as nat);
                assert(1 * w == w);
                lemma_u64_shl_is_mul(1u64, i as u64);
                assert(bits_value(data, c, (i + 1) as nat) == bits_value(data, c, i as nat) + bit_at(
                    data,
                    (c + i) as nat,
                ) * w);
                if b == 1 {
                    assert(1 * w == w);
                } else {
                    assert(0 * w == 0);
                }
            }
            if b == 1 {
                result = result + (1u64 << i);
            }
            i = i + 1;
        }
        Ok(result)
    }

    pub fn read_u8(&mut self) -> (r: Result<u8, DecodeError>)
        requires
            old(self).wf(),
            old(self).aligned(),
        ensures
            final(self).wf(),
            final(self).aligned(),
            final(self).same_source(old(self)),
            old(self).position + 1 <= old(self).data@.len() ==> {
                &&& r == Ok::<u8, DecodeError>(old(self).data@[old(self).position as int])
                &&& final(self).position == old(self).position + 1
            },
            old(self).position + 1 > old(self).data@.len() ==> {
                &&& r == Err::<u8, DecodeError>(DecodeError::TruncatedInput)
                &&& *final(self) == *old(self)
            },
    {
        if self.position >= self.data.len() {
            return Err(DecodeError::TruncatedInput);
        }
        let b = self.data[self.position];
        self.position = self.position + 1;
        Ok(b)
    }

    pub fn read_u16(&mut self) -> (r: Result<u16, DecodeError>)
        requires
            old(self).wf(),
            old(self).aligned(),
        ensures
            final(self).wf(),
            final(self).aligned(),
            final(self).same_source(old(self)),
            old(self).position + 2 <= old(self).data@.len() ==> {
                &&& r == Ok::<u16, DecodeError>(
                    u16_from(
                        old(self).endianness,
                        old(self).data@[old(self).position as int],
                        old(self).data@[old(self).position + 1],
                    ),
                )
                &&& final(self).position == old(self).position + 2
            },
            old(self).position + 2 > old(self).data@.len() ==> {
                &&& r == Err::<u16, DecodeError>(DecodeError::TruncatedInput)
                &&& *final(self) == *old(self)
            },
    {
        if self.data.len() - self.position < 2 {
            return Err(DecodeError::TruncatedInput);
        }
        let b0 = self.data[self.position];
        let b1 = self.data[self.position + 1];
        self.position = self.position + 2;
        let v: u16 = match self.endianness {
            Endianess::BigEndian => b0 as u16 * 256 + b1 as u16,
            Endianess::LittleEndian => b1 as u16 * 256 + b0 as u16,
        };
        Ok(v)
    }

    /// Reads `num_bytes` bytes as one unsigned value in the buffer's byte order.
    fn read_uint(&mut self, num_bytes: u8) -> (r: Result<u64, DecodeError>)
        requires
            old(self).wf(),
            old(self).aligned(),
            num_bytes <= 8,
        ensures
            final(self).wf(),
            final(self).aligned(),
            final(self).same_source(old(self)),
            old(self).position + num_bytes <= old(self).data@.len() ==> {
                let s = old(self).data@.subrange(old(self).position as int, old(self).position + num_bytes);
                &&& r == Ok::<u64, DecodeError>(uint_value(old(self).endianness, s) as u64)
                &&& uint_value(old(self).endianness, s) < pow2(8 * num_bytes as nat)
                &&& final(self).position == old(self).position + num_bytes
            },
            old(self).position + num_bytes > old(self).data@.len() ==> {
                &&& r == Err::<u64, DecodeError>(DecodeError::TruncatedInput)
                &&& *final(self) == *old(self)
            },
    {
        if self.data.len() - self.position < num_bytes as usize {
            return Err(DecodeError::TruncatedInput);
        }
        let n = num_bytes as usize;
        let pos = self.position;
        let ghost s = self.data@.subrange(pos as int, pos + n);
        let ghost t = match self.endianness {
            Endianess::LittleEndian => s,
            Endianess::BigEndian => s.reverse(),
        };
        let len = self.data.len();
        let mut v: u64 = 0;
        let mut k: usize = n;
        proof {
            lemma2_to64();
        }
        while k > 0
            invariant
                n <= 8,
                k <= n,
                len == self.data@.len(),
                pos + n <= len,
                s == self.data@.subrange(pos as int, pos + n),
                t.len() == n,
                self.endianness == Endianess::LittleEndian ==> t == s,
                self.endianness == Endianess::BigEndian ==> t == s.reverse(),
                v as nat == le_value(t.subrange(k as int, n as int)),
                (v as nat) < pow2(8 * (n - k) as nat),
            decreases k,
        {
            let idx = match self.endianness {
                Endianess::LittleEndian => pos + k - 1,
                Endianess::BigEndian => pos + n - k,
            };
            let b = self.data[idx];
            proof {
                lemma2_to64();
                assert(b == t[k - 1]);
                assert(t.subrange(k - 1, n as int).drop_first() =~= t.subrange(k as int, n as int));
                let m = (8 * (n - k)) as nat;
                vstd::arithmetic::power2::lemma_pow2_adds(m, 8);
                lemma_pow2_pos(m);
                assert(m + 8 == 8 * (n - k + 1));
                if m + 8 < 64 {
                    lemma_pow2_strictly_increases(m + 8, 64);
                }
                assert(v * 256 + b < pow2(m) * 256) by (nonlinear_arith)
                    requires
                        v < pow2(m),
                        b < 256,
                ;
            }
            v = v * 256 + b as u64;
            k = k - 1;
        }
        self.position = pos + n;
        proof {
            assert(t.subrange(0, n as int) =~= t);
        }
        Ok(v)
    }

    pub fn read_u32(&mut self) -> (r: Result<u32, DecodeError>)
        requires
            old(self).wf(),
            old(self).aligned(),
        ensures
            final(self).wf(),
            final(self).aligned(),
            final(self).same_source(old(self)),
            old(self).position + 4 <= old(self).data@.len() ==> {
                let s = old(self).data@.subrange(old(self).position as int, old(self).position + 4);
                &&& r == Ok::<u32, DecodeError>(uint_value(old(self).endianness, s) as u32)
                &&& final(self).position == old(self).position + 4
            },
            old(self).position + 4 > old(self).data@.len() ==> {
                &&& r == Err::<u32, DecodeError>(DecodeError::TruncatedInput)
                &&& *final(self) == *old(self)
            },
    {
        let v = self.read_uint(4)?;
        proof {
            lemma2_to64();
        }
        Ok(v as u32)
    }

    pub fn read_u64(&mut self) -> (r: Result<u64, DecodeError>)
        requires
            old(self).wf(),
            old(self).aligned(),
        ensures
            final(self).wf(),
            final(self).aligned(),
            final(self).same_source(old(self)),
            old(self).position + 8 <= old(self).data@.len() ==> {
                let s = old(self).data@.subrange(old(self).position as int, old(self).position + 8);
                &&& r == Ok::<u64, DecodeError>(uint_value(old(self).endianness, s) as u64)
                &&& final(self).position == old(self).position + 8
            },
            old(self).position + 8 > old(self).data@.len() ==> {
                &&& r == Err::<u64, DecodeError>(DecodeError::TruncatedInput)
                &&& *final(self) == *old(self)
            },
    {
        self.read_uint(8)
    }

    pub fn read_bytes(&mut self, length: usize) -> (r: Result<Vec<u8>, DecodeError>)
        requires
            old(self).wf(),
            old(self).aligned(),
        ensures
            final(self).wf(),
            final(self).aligned(),
            final(self).same_source(old(self)),
            old(self).position + length <= old(self).data@.len() ==> {
                &&& r is Ok
                &&& r->Ok_0@ == old(self).data@.subrange(
                    old(self).position as int,
                    old(self).position + length,
                )
                &&& final(self).position == old(self).position + length
            },
            old(self).position + length > old(self).data@.len() ==> {
                &&& r == Err::<Vec<u8>, DecodeError>(DecodeError::TruncatedInput)
                &&& *final(self) == *old(self)
            },
    {
        if self.data.len() - self.position < length {
            return Err(DecodeError::TruncatedInput);
        }
        let start = self.position;
        let end = start + length;
        let mut bytes: Vec<u8> = Vec::new();
        bytes.extend_from_slice(&self.data.as_slice()[start..end]);
        self.position = end;
        assert(bytes@ =~= self.data@.subrange(start as int, end as int));
        Ok(bytes)
    }
}

/// Bits that lie within one byte are that byte's bits: the `n` bits from position `q`
/// of byte `j` are `(data[j] / 2^q) mod 2^n`.
pub proof fn lemma_bits_within_byte(data: Seq<u8>, j: nat, q: nat, n: nat)
    requires
        j < data.len(),
        q + n <= 8,
    ensures
        bits_value(data, 8 * j + q, n) == (data[j as int] as nat / pow2(q)) % pow2(n),
    decreases n,
{
    let d = data[j as int] as nat;
    lemma_pow2_pos(q);
    let y = d / pow2(q);
    if n == 0 {
        lemma2_to64();
        assert(y % 1 == 0);
    } else {
        let m = (n - 1) as nat;
        lemma_bits_within_byte(data, j, q, m);
        let k = (8 * j + q + m) as nat;
        vstd::arithmetic::div_mod::lemma_fundamental_div_mod_converse(k as int, 8, j as int, (q + m) as int);
        assert(k / 8 == j && k % 8 == q + m);
        lemma_pow2_pos(m);
        vstd::arithmetic::div_mod::lemma_div_denominator(d as int, pow2(q) as int, pow2(m) as int);
        vstd::arithmetic::power2::lemma_pow2_adds(q, m);
        assert(bit_at(data, k) == bit_of(y, m));
        crate::write_buffer::lemma_low_bits_step(y, n);
    }
}

/// The bytes of a sink once its pending byte, if any, is handed on.
pub open spec fn flushed(state: (Seq<u8>, nat, nat)) -> Seq<u8> {
    if state.1 == 0 {
        state.0
    } else {
        state.0.push(state.2 as u8)
    }
}

proof fn lemma_bit_of_add_high(v: nat, p: nat, b: nat, j: nat)
    requires
        v < pow2(p),
        b < 2,
        j <= p,
    ensures
        bit_of(v + b * pow2(p), j) == if j < p { bit_of(v, j) } else { b },
{
    lemma_pow2_pos(j);
    lemma_pow2_pos(p);
    if j < p {
        let d = (p - j) as nat;
        vstd::arithmetic::power2::lemma_pow2_adds(j, d);
        lemma_pow2_pos(d);
        // v + b * 2^p = (v / 2^j + b * 2^d) * 2^j + v % 2^j
        vstd::arithmetic::div_mod::lemma_fundamental_div_mod(v as int, pow2(j) as int);
        let q = v / pow2(j);
        let r = v % pow2(j);
        assert(v + b * pow2(p) == (q + b * pow2(d)) * pow2(j) + r) by (nonlinear_arith)
            requires
                v == pow2(j) * q + r,
                pow2(p) == pow2(j) * pow2(d),
        ;
        vstd::arithmetic::div_mod::lemma_fundamental_div_mod_converse(
            (v + b * pow2(p)) as int,
            pow2(j) as int,
            (q + b * pow2(d)) as int,
            r as int,
        );
        lemma_pow2_unfold(d);
        let t = b * pow2((d - 1) as nat);
        assert(b * pow2(d) == 2 * t) by (nonlinear_arith)
            requires
                pow2(d) == 2 * pow2((d - 1) as nat),
                t == b * pow2((d - 1) as nat),
        ;
        vstd::arithmetic::div_mod::lemma_mod_multiples_vanish(t as int, q as int, 2);
        assert((q + b * pow2(d)) % 2 == q % 2);
    } else {
        vstd::arithmetic::div_mod::lemma_fundamental_div_mod_converse(
            (v + b * pow2(p)) as int,
            pow2(p) as int,
            b as int,
            v as int,
        );
    }
}

proof fn lemma_push_bits_layout(b0: Seq<u8>, x: nat, k: nat)
    ensures
        ({
            let st = crate::write_buffer::push_bits(b0, 0, 0, x, k);
            &&& st.0.len() == b0.len() + k / 8
            &&& st.1 == k % 8
            &&& st.2 < pow2(st.1)
            &&& forall|i: nat| i < 8 * (k / 8) ==> #[trigger] bit_at(st.0, 8 * b0.len() + i) == bit_of(x, i)
            &&& forall|j: nat| j < st.1 ==> #[trigger] bit_of(st.2, j) == bit_of(x, 8 * (k / 8) + j)
        }),
    decreases k,
{
    lemma2_to64();
    if k > 0 {
        let m = (k - 1) as nat;
        lemma_push_bits_layout(b0, x, m);
        let prev = crate::write_buffer::push_bits(b0, 0, 0, x, m);
        let b = bit_of(x, m);
        let p = prev.1;
        let v = prev.2 + b * pow2(p);
        let st = crate::write_buffer::push_bits(b0, 0, 0, x, k);
        assert(st == crate::write_buffer::push_bit(prev.0, prev.1, prev.2, b));
        assert(b < 2);
        assert forall|j: nat| j <= p implies #[trigger] bit_of(v, j) == if j < p {
            bit_of(prev.2, j)
        } else {
            b
        } by {
            lemma_bit_of_add_high(prev.2, p, b, j);
        }
        assert(m == 8 * (m / 8) + p);
        lemma_pow2_unfold(p + 1);
        lemma_pow2_pos(p);
        assert(b * pow2(p) <= pow2(p)) by (nonlinear_arith)
            requires
                b < 2,
        ;
        assert(v < pow2(p + 1));
        if p + 1 == 8 {
            assert(k / 8 == m / 8 + 1 && k % 8 == 0);
            assert(v < 256);
            let byte = v as u8;
            assert(byte as nat == v);
            assert forall|i: nat| i < 8 * (k / 8) implies #[trigger] bit_at(st.0, 8 * b0.len() + i) == bit_of(x, i) by {
                let idx = 8 * b0.len() + i;
                if i < 8 * (m / 8) {
                    assert(bit_at(prev.0, idx) == bit_of(x, i));
                    assert(idx / 8 < prev.0.len()) by (nonlinear_arith)
                        requires
                            idx == 8 * b0.len() + i,
                            i < 8 * (m / 8),
                            prev.0.len() == b0.len() + m / 8,
                    ;
                    assert(st.0[(idx / 8) as int] == prev.0[(idx / 8) as int]);
                } else {
                    let j = (i - 8 * (m / 8)) as nat;
                    assert(j < 8);
                    vstd::arithmetic::div_mod::lemma_fundamental_div_mod_converse(
                        idx as int,
                        8,
                        (b0.len() + m / 8) as int,
                        j as int,
                    );
                    assert(st.0[(idx / 8) as int] == byte);
                    assert(bit_at(st.0, idx) == bit_of(v, j));
                }
            }
        } else {
            assert(k / 8 == m / 8 && k % 8 == p + 1);
            assert forall|i: nat| i < 8 * (k / 8) implies #[trigger] bit_at(st.0, 8 * b0.len() + i) == bit_of(x, i) by {
                assert(bit_at(prev.0, 8 * b0.len() + i) == bit_of(x, i));
            }
        }
    } else {
        assert(pow2(0) == 1);
    }
}

proof fn lemma_bits_value_of_matching_bits(data: Seq<u8>, c: nat, x: nat, n: nat)
    requires
        forall|i: nat| i < n ==> #[trigger] bit_at(data, c + i) == bit_of(x, i),
    ensures
        bits_value(data, c, n) == x % pow2(n),
    decreases n,
{
    if n == 0 {
        lemma2_to64();
        assert(x % 1 == 0);
    } else {
        let m = (n - 1) as nat;
        assert forall|i: nat| i < m implies #[trigger] bit_at(data, c + i) == bit_of(x, i) by {
            assert(bit_at(data, c + i) == bit_of(x, i));
        }
        lemma_bits_value_of_matching_bits(data, c, x, m);
        assert(bit_at(data, c + m) == bit_of(x, m));
        crate::write_buffer::lemma_low_bits_step(x, n);
    }
}

/// Bits written from a byte boundary are read back as written: after writing the `n`
/// low bits of `x` to a sink holding `b0` and handing on the pending byte, the `n` bits
/// from the end of `b0` are `x mod 2^n`.
pub proof fn lemma_bits_round_trip(b0: Seq<u8>, x: nat, n: nat)
    ensures
        bits_value(flushed(crate::write_buffer::push_bits(b0, 0, 0, x, n)), 8 * b0.len(), n) == x % pow2(n),
{
    lemma_push_bits_layout(b0, x, n);
    let st = crate::write_buffer::push_bits(b0, 0, 0, x, n);
    let f = flushed(st);
    assert forall|i: nat| i < n implies #[trigger] bit_at(f, 8 * b0.len() + i) == bit_of(x, i) by {
        let idx = 8 * b0.len() + i;
        if i < 8 * (n / 8) {
            assert(bit_at(st.0, idx) == bit_of(x, i));
            assert(idx / 8 < st.0.len()) by (nonlinear_arith)
                requires
                    idx == 8 * b0.len() + i,
                    i < 8 * (n / 8),
                    st.0.len() == b0.len() + n / 8,
            ;
            if st.1 != 0 {
                assert(f[(idx / 8) as int] == st.0[(idx / 8) as int]);
            }
        } else {
            let j = (i - 8 * (n / 8)) as nat;
            assert(n == 8 * (n / 8) + st.1);
            assert(j < st.1);
            vstd::arithmetic::div_mod::lemma_fundamental_div_mod_converse(
                idx as int,
                8,
                (b0.len() + n / 8) as int,
                j as int,
            );
            lemma2_to64();
            vstd::arithmetic::power2::lemma_pow2_strictly_increases(st.1, 8);
            assert(st.2 < 256);
            assert(f[(idx / 8) as int] == st.2 as u8);
            assert(bit_at(f, idx) == bit_of(st.2, j));
        }
    }
    lemma_bits_value_of_matching_bits(f, 8 * b0.len(), x, n);
}

} // verus!
