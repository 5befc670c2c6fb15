use vstd::arithmetic::div_mod::lemma_mod_breakdown;
use vstd::arithmetic::power2::{lemma2_to64, lemma_pow2_adds, lemma_pow2_pos, lemma_pow2_unfold, pow2};
use vstd::bits::lemma_u64_shr_is_div;
use vstd::prelude::*;

use crate::Endianess;

verus! {

/// Bit `i` of `x`, counting from the least significant bit.
pub open spec fn bit_of(x: nat, i: nat) -> nat {
    (x / pow2(i)) % 2
}

/// Appends one bit to a sink made of the completed bytes, the number of bits already
/// placed in the pending byte, and that pending byte's value. The bit lands at the
/// next free position of the pending byte (position 0 is its least significant bit);
/// a byte that fills up is flushed and a fresh one started.
pub open spec fn push_bit(bytes: Seq<u8>, position: nat, value: nat, bit: nat) -> (Seq<u8>, nat, nat) {
    let v = value + bit * pow2(position);
    if position + 1 == 8 {
        (bytes.push(v as u8), 0nat, 0nat)
    } else {
        (bytes, (position + 1) as nat, v)
    }
}

/// Appends the `n` low bits of `x`, least significant first.
pub open spec fn push_bits(bytes: Seq<u8>, position: nat, value: nat, x: nat, n: nat) -> (Seq<u8>, nat, nat)
    decreases n,
{
    if n == 0 {
        (bytes, position, value)
    } else {
        let s = push_bits(bytes, position, value, x, (n - 1) as nat);
        push_bit(s.0, s.1, s.2, bit_of(x, (n - 1) as nat))
    }
}

/// The two bytes of a 16-bit value in the given byte order.
pub open spec fn u16_bytes(e: Endianess, x: u16) -> Seq<u8> {
    match e {
        Endianess::BigEndian => seq![(x / 256) as u8, (x % 256) as u8],
        Endianess::LittleEndian => seq![(x % 256) as u8, (x / 256) as u8],
    }
}

/// The `n` low bytes of `x`, least significant first.
pub open spec fn le_bytes(x: nat, n: nat) -> Seq<u8>
    decreases n,
{
    if n == 0 {
        Seq::empty()
    } else {
        seq![(x % 256) as u8] + le_bytes(x / 256, (n - 1) as nat)
    }
}

pub proof fn lemma_le_bytes_len(x: nat, n: nat)
    ensures
        le_bytes(x, n).len() == n,
    decreases n,
{
    if n > 0 {
        lemma_le_bytes_len(x / 256, (n - 1) as nat);
    }
}

/// The `n` low bytes of `x` in the given byte order.
pub open spec fn uint_bytes(e: Endianess, x: nat, n: nat) -> Seq<u8> {
    match e {
        Endianess::LittleEndian => le_bytes(x, n),
        Endianess::BigEndian => le_bytes(x, n).reverse(),
    }
}

/// Splitting `x mod 2^n` at bit `n - 1`.
pub proof fn lemma_low_bits_step(x: nat, n: nat)
    requires
        n >= 1,
    ensures
        x % pow2(n) == x % pow2((n - 1) as nat) + bit_of(x, (n - 1) as nat) * pow2((n - 1) as nat),
        x % pow2(n) < pow2(n),
{
    let m = (n - 1) as nat;
    lemma_pow2_pos(m);
    lemma_pow2_unfold(n);
    lemma_mod_breakdown(x as int, pow2(m) as int, 2);
    assert(pow2(m) * 2 == pow2(n));
    assert(x % pow2(n) == pow2(m) * ((x / pow2(m)) % 2) + x % pow2(m));
    let b = (x / pow2(m)) % 2;
    assert(pow2(m) * b == b * pow2(m)) by (nonlinear_arith);
    lemma_pow2_pos(n);
}

/// Pushing `n` bits that do not overrun the pending byte adds `x mod 2^n`, shifted to
/// the pending position; reaching the byte boundary flushes the byte.
pub proof fn lemma_push_within_byte(bytes: Seq<u8>, position: nat, value: nat, x: nat, n: nat)
    requires
        position < 8,
        position + n <= 8,
        value < pow2(position),
    ensures
        ({
            let v = value + (x % pow2(n)) * pow2(position);
            &&& v < pow2(position + n)
            &&& push_bits(bytes, position, value, x, n) == if position + n < 8 {
                (bytes, (position + n) as nat, v)
            } else {
                (bytes.push(v as u8), 0nat, 0nat)
            }
        }),
    decreases n,
{
    if n == 0 {
        lemma2_to64();
        assert(x % 1 == 0);
        assert(x % pow2(n) == 0);
        let z = x % pow2(n);
        let pp = pow2(position);
        assert(z * pp == 0) by (nonlinear_arith)
            requires
                z == 0,
        ;
        assert(push_bits(bytes, position, value, x, n) == (bytes, position, value));
    } else {
        let m = (n - 1) as nat;
        lemma_push_within_byte(bytes, position, value, x, m);
        let b = bit_of(x, m);
        let low = x % pow2(m);
        let vm = value + low * pow2(position);
        lemma_low_bits_step(x, n);
        lemma_pow2_adds(position, m);
        lemma_pow2_adds(position, n);
        lemma_pow2_pos(position);
        lemma_pow2_pos(m);
        assert(b * pow2(position + m) == (b * pow2(m)) * pow2(position)) by (nonlinear_arith)
            requires
                pow2(position + m) == pow2(position) * pow2(m),
        ;
        assert(vm + b * pow2(position + m) == value + (x % pow2(n)) * pow2(position)) by (nonlinear_arith)
            requires
                vm == value + low * pow2(position),
                x % pow2(n) == low + b * pow2(m),
                b * pow2(position + m) == (b * pow2(m)) * pow2(position),
        ;
        let q = pow2(n);
        let pp = pow2(position);
        let l = x % q;
        assert(l * pp <= (q - 1) * pp) by (nonlinear_arith)
            requires
                l <= q - 1,
                pp > 0,
        ;
        assert((q - 1) * pp == q * pp - pp) by (nonlinear_arith);
        assert(pp * q == q * pp) by (nonlinear_arith);
        let v = value + l * pp;
        assert(v < pow2(position + n));
        assert(push_bits(bytes, position, value, x, m) == (bytes, position + m, vm));
        assert(push_bits(bytes, position, value, x, n) == push_bit(bytes, position + m, vm, b));
        assert(vm + b * pow2(position + m) == v);
        if position + n == 8 {
            assert(push_bit(bytes, (position + m) as nat, vm, b) == (bytes.push(v as u8), 0nat, 0nat));
            assert(push_bits(bytes, position, value, x, n) == (bytes.push(v as u8), 0nat, 0nat));
        } else {
            assert(push_bit(bytes, (position + m) as nat, vm, b) == (bytes, (position + n) as nat, v));
        }
    }
}

/// Accumulates the bits of a byte that is being written, and hands the byte on once
/// eight bits are in it.
pub struct BitWriter {
    /// Number of bits already placed in `value` (0 to 7).
    pub position: u8,
    /// The pending byte; bits at `position` and above are zero.
    pub value: u8,
}

impl BitWriter {
    pub open spec fn wf(&self) -> bool {
        self.position < 8 && (self.value as nat) < pow2(self.position as nat)
    }

    pub fn new() -> (r: BitWriter)
        ensures
            r.wf(),
            r.position == 0,
            r.value == 0,
    {
        proof {
            lemma2_to64();
        }
        BitWriter { position: 0, value: 0 }
    }

    /// Writes the `bits` low bits of `value`, least significant first, flushing each
    /// completed byte to `writer`. Returns the number of bytes flushed.
    pub fn write(&mut self, value: u64, bits: u8, writer: &mut Vec<u8>) -> (r: usize)
        requires
            old(self).wf(),
            bits <= 64,
        ensures
            final(self).wf(),
            (final(writer)@, final(self).position as nat, final(self).value as nat) == push_bits(
                old(writer)@,
                old(self).position as nat,
                old(self).value as nat,
                value as nat,
                bits as nat,
            ),
            r == final(writer)@.len() - old(writer)@.len(),
    {
        let ghost start = old(writer)@;
        let mut results: usize = 0;
        let mut bit_index: u8 = 0;
        while bit_index < bits
            invariant
                self.wf(),
                bit_index <= bits <= 64,
                (writer@, self.position as nat, self.value as nat) == push_bits(
                    start,
                    old(self).position as nat,
                    old(self).value as nat,
                    value as nat,
                    bit_index as nat,
                ),
                writer@.len() == start.len() + results,
                writer@.len() <= start.len() + bit_index,
            decreases bits - bit_index,
        {
            let bit: u8 = ((value >> bit_index) & 1) as u8;
            proof {
                lemma_u64_shr_is_div(value, bit_index as u64);
                let sh = value >> bit_index;
                assert(sh & 1 == sh % 2) by (bit_vector);
                assert(bit as nat == bit_of(value as nat, bit_index as nat));
            }
            self.push(bit, writer);
            if self.position == 0 {
                results = results + 1;
            }
            bit_index = bit_index + 1;
        }
        results
    }

    /// Places one bit; flushes the byte when it is full.
    fn push(&mut self, bit: u8, writer: &mut Vec<u8>)
        requires
            old(self).wf(),
            bit < 2,
        ensures
            final(self).wf(),
            (final(writer)@, final(self).position as nat, final(self).value as nat) == push_bit(
                old(writer)@,
                old(self).position as nat,
                old(self).value as nat,
                bit as nat,
            ),
            final(self).position == 0 ==> final(writer)@.len() == old(writer)@.len() + 1,
            final(self).position != 0 ==> final(writer)@ == old(writer)@,
    {
        let p = self.position;
        let v = self.value;
        proof {
            lemma_pow2_pos(p as nat);
            lemma_pow2_unfold((p + 1) as nat);
            vstd::bits::lemma_u8_pow2_no_overflow(p as nat);
            lemma2_to64();
            if p < 7 {
                vstd::arithmetic::power2::lemma_pow2_strictly_increases((p + 1) as nat, 8);
            }
        }
        let weight: u8 = 1u8 << p;
        proof {
            vstd::bits::lemma_u8_shl_is_mul(1u8, p);
        }
        let nv: u8 = if bit == 1 { v + weight } else { v };
        if p == 7 {
            writer.push(nv);
            self.position = 0;
            self.value = 0;
            proof {
                lemma2_to64();
            }
        } else {
            self.position = p + 1;
            self.value = nv;
        }
    }

    /// Hands the pending byte to `writer` and starts a fresh one.
    pub fn flush(&mut self, writer: &mut Vec<u8>) -> (r: usize)
        requires
            old(self).wf(),
        ensures
            final(self).wf(),
            final(self).position == 0,
            final(writer)@ == old(writer)@.push(old(self).value),
            r == 1,
    {
        writer.push(self.value);
        self.position = 0;
        self.value = 0;
        proof {
            lemma2_to64();
        }
        1
    }
}

/// A byte sink that accepts fields of any width from 1 to 64 bits, and whole bytes
/// and multi-byte integers in a fixed byte order.
pub struct WriteBuffer {
    pub endianness: Endianess,
    pub bit_writer: BitWriter,
    pub writer: Vec<u8>,
}

impl WriteBuffer {
    pub open spec fn wf(&self) -> bool {
        self.bit_writer.wf()
    }

    /// No partial byte is pending.
    pub open spec fn aligned(&self) -> bool {
        self.bit_writer.position == 0
    }

    pub fn new(endianess: Endianess, writer: Vec<u8>) -> (r: WriteBuffer)
        ensures
            r.wf(),
            r.aligned(),
            r.endianness == endianess,
            r.writer@ == writer@,
    {
        WriteBuffer { endianness: endianess, bit_writer: BitWriter::new(), writer }
    }

    fn write(&mut self, bytes: &[u8]) -> (r: usize)
        requires
            old(self).wf(),
            old(self).aligned(),
        ensures
            final(self).wf(),
            final(self).aligned(),
            final(self).endianness == old(self).endianness,
            final(self).writer@ == old(self).writer@ + bytes@,
            r == bytes@.len(),
    {
        let ghost start = self.writer@;
        self.writer.extend_from_slice(bytes);
        assert(self.writer@ =~= start + bytes@);
        bytes.len()
    }

    /// Writes one bit.
    pub fn write_bit(&mut self, value: bool) -> (r: usize)
        requires
            old(self).wf(),
        ensures
            final(self).wf(),
            final(self).endianness == old(self).endianness,
            (final(self).writer@, final(self).bit_writer.position as nat, final(self).bit_writer.value as nat)
                == push_bits(
                old(self).writer@,
                old(self).bit_writer.position as nat,
                old(self).bit_writer.value as nat,
                if value { 1 } else { 0 },
                1,
            ),
            r == final(self).writer@.len() - old(self).writer@.len(),
    {
        if value {
            self.write_u_n(1, 1)
        } else {
            self.write_u_n(1, 0)
        }
    }

    /// Writes the `num_bits` low bits of `value` (at most 64). A field of whole bytes
    /// written at a byte boundary is written in the buffer's byte order; any other field is
    /// written bit by bit, the least significant first.
    pub fn write_u_n(&mut self, num_bits: u8, value: u64) -> (r: usize)
        requires
            old(self).wf(),
            num_bits <= 64,
        ensures
            final(self).wf(),
            final(self).endianness == old(self).endianness,
            old(self).aligned() && num_bits % 8 == 0 ==> {
                &&& final(self).writer@ == old(self).writer@ + uint_bytes(
                    old(self).endianness,
                    value as nat,
                    (num_bits / 8) as nat,
                )
                &&& final(self).aligned()
                &&& r == num_bits / 8
            },
            !(old(self).aligned() && num_bits % 8 == 0) ==> {
                &&& (final(self).writer@, final(self).bit_writer.position as nat,
                    final(self).bit_writer.value as nat) == push_bits(
                    old(self).writer@,
                    old(self).bit_writer.position as nat,
                    old(self).bit_writer.value as nat,
                    value as nat,
                    num_bits as nat,
                )
                &&& r == final(self).writer@.len() - old(self).writer@.len()
            },
    {
        if self.bit_writer.position == 0 && num_bits % 8 == 0 {
            self.write_uint(value, num_bits / 8)
        } else {
            self.bit_writer.write(value, num_bits, &mut self.writer)
        }
    }

    pub fn write_u8(&mut self, x: u8) -> (r: usize)
        requires
            old(self).wf(),
            old(self).aligned(),
        ensures
            final(self).wf(),
            final(self).aligned(),
            final(self).endianness == old(self).endianness,
            final(self).writer@ == old(self).writer@.push(x),
            r == 1,
    {
        let ghost start = self.writer@;
        let r = self.write(&[x]);
        assert(self.writer@ =~= start.push(x));
        r
    }

    pub fn write_u16(&mut self, x: u16) -> (r: usize)
        requires
            old(self).wf(),
            old(self).aligned(),
        ensures
            final(self).wf(),
            final(self).aligned(),
            final(self).endianness == old(self).endianness,
            final(self).writer@ == old(self).writer@ + u16_bytes(old(self).endianness, x),
            r == 2,
    {
        let hi: u8 = (x / 256) as u8;
        let lo: u8 = (x % 256) as u8;
        let ghost start = self.writer@;
        let r = match self.endianness {
            Endianess::BigEndian => self.write(&[hi, lo]),
            Endianess::LittleEndian => self.write(&[lo, hi]),
        };
        assert(self.writer@ =~= start + u16_bytes(self.endianness, x));
        r
    }

    /// Writes the `num_bytes` low bytes of `x` in the buffer's byte order.
    fn write_uint(&mut self, x: u64, num_bytes: u8) -> (r: usize)
        requires
            old(self).wf(),
            old(self).aligned(),
            num_bytes <= 8,
        ensures
            final(self).wf(),
            final(self).aligned(),
            final(self).endianness == old(self).endianness,
            final(self).writer@ == old(self).writer@ + uint_bytes(old(self).endianness, x as nat, num_bytes as nat),
            r == num_bytes,
    {
        let mut low_first: Vec<u8> = Vec::new();
        let mut rest: u64 = x;
        let mut i: u8 = 0;
        while i < num_bytes
            invariant
                i <= num_bytes <= 8,
                low_first@ + le_bytes(rest as nat, (num_bytes - i) as nat) == le_bytes(x as nat, num_bytes as nat),
            decreases num_bytes - i,
        {
            let ghost before = low_first@;
            low_first.push((rest % 256) as u8);
            proof {
                let k = (num_bytes - i) as nat;
                assert(le_bytes(rest as nat, k) == seq![(rest % 256) as u8] + le_bytes(
                    (rest / 256) as nat,
                    (k - 1) as nat,
                ));
                assert(low_first@ + le_bytes((rest / 256) as nat, (k - 1) as nat) =~= before + le_bytes(
                    rest as nat,
                    k,
                ));
            }
            rest = rest / 256;
            i = i + 1;
        }
        assert(low_first@ =~= le_bytes(x as nat, num_bytes as nat));
        proof {
            lemma_le_bytes_len(x as nat, num_bytes as nat);
        }
        match self.endianness {
            Endianess::LittleEndian => self.write(low_first.as_slice()),
            Endianess::BigEndian => {
                let n = low_first.len();
                let mut high_first: Vec<u8> = Vec::new();
                let mut j: usize = 0;
                while j < n
                    invariant
                        n == low_first@.len(),
                        j <= n,
                        high_first@ =~= Seq::new(j as nat, |k: int| low_first@[n - 1 - k]),
                    decreases n - j,
                {
                    high_first.push(low_first[n - 1 - j]);
                    j = j + 1;
                }
                assert(high_first@ =~= low_first@.reverse());
                self.write(high_first.as_slice())
            },
        }
    }

    pub fn write_u32(&mut self, x: u32) -> (r: usize)
        requires
            old(self).wf(),
            old(self).aligned(),
        ensures
            final(self).wf(),
            final(self).aligned(),
            final(self).endianness == old(self).endianness,
            final(self).writer@ == old(self).writer@ + uint_bytes(old(self).endianness, x as nat, 4),
            r == 4,
    {
        self.write_uint(x as u64, 4)
    }

    pub fn write_u64(&mut self, x: u64) -> (r: usize)
        requires
            old(self).wf(),
            old(self).aligned(),
        ensures
            final(self).wf(),
            final(self).aligned(),
            final(self).endianness == old(self).endianness,
            final(self).writer@ == old(self).writer@ + uint_bytes(old(self).endianness, x as nat, 8),
            r == 8,
    {
        self.write_uint(x, 8)
    }

    pub fn write_bytes(&mut self, bytes: &[u8]) -> (r: usize)
        requires
            old(self).wf(),
            old(self).aligned(),
        ensures
            final(self).wf(),
            final(self).aligned(),
            final(self).endianness == old(self).endianness,
            final(self).writer@ == old(self).writer@ + bytes@,
            r == bytes@.len(),
    {
        self.write(bytes)
    }
}

} // verus!
