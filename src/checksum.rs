use vstd::prelude::*;

verus! {

/// One shift of the Modbus CRC register (reflected polynomial 0xA001).
pub open spec fn crc_shift(r: u16) -> u16 {
    if r & 1 == 1 {
        (r >> 1) ^ 0xA001u16
    } else {
        r >> 1
    }
}

/// `k` shifts of the register.
pub open spec fn crc_rounds(r: u16, k: nat) -> u16
    decreases k,
{
    if k == 0 {
        r
    } else {
        crc_shift(crc_rounds(r, (k - 1) as nat))
    }
}

/// The register after taking in one byte.
pub open spec fn crc_byte(r: u16, b: u8) -> u16 {
    crc_rounds(r ^ (b as u16), 8)
}

/// CRC-16 of a byte sequence as Modbus RTU computes it: the register starts at 0xFFFF
/// and takes in each byte in turn.
pub open spec fn crc16_of(s: Seq<u8>) -> u16
    decreases s.len(),
{
    if s.len() == 0 {
        0xFFFFu16
    } else {
        crc_byte(crc16_of(s.drop_last()), s.last())
    }
}

/// Sum of the bytes of a sequence.
pub open spec fn byte_sum(s: Seq<u8>) -> nat
    decreases s.len(),
{
    if s.len() == 0 {
        0
    } else {
        byte_sum(s.drop_last()) + s.last() as nat
    }
}

/// LRC of a byte sequence as Modbus ASCII computes it: the two's complement of the
/// byte sum, modulo 256.
pub open spec fn lrc8_of(s: Seq<u8>) -> u8 {
    ((256 - byte_sum(s) % 256) % 256) as u8
}

/// Computes the Modbus CRC-16 of `bytes`.
pub fn crc16(bytes: &[u8]) -> (r: u16)
    ensures
        r == crc16_of(bytes@),
{
    let mut reg: u16 = 0xFFFF;
    let mut i: usize = 0;
    while i < bytes.len()
        invariant
            i <= bytes@.len(),
            reg == crc16_of(bytes@.subrange(0, i as int)),
        decreases bytes@.len() - i,
    {
        let b = bytes[i];
        let ghost before = reg;
        reg = reg ^ (b as u16);
        let mut k: u8 = 0;
        while k < 8
            invariant
                k <= 8,
                reg == crc_rounds(before ^ (b as u16), k as nat),
            decreases 8 - k,
        {
            reg = if reg & 1 == 1 {
                (reg >> 1) ^ 0xA001
            } else {
                reg >> 1
            };
            k = k + 1;
        }
        assert(bytes@.subrange(0, i + 1).drop_last() =~= bytes@.subrange(0, i as int));
        i = i + 1;
    }
    assert(bytes@.subrange(0, i as int) =~= bytes@);
    reg
}

/// Computes the Modbus LRC of `bytes`.
pub fn lrc8(bytes: &[u8]) -> (r: u8)
    ensures
        r == lrc8_of(bytes@),
{
    let mut sum: u8 = 0;
    let mut i: usize = 0;
    while i < bytes.len()
        invariant
            i <= bytes@.len(),
            sum as nat == byte_sum(bytes@.subrange(0, i as int)) % 256,
        decreases bytes@.len() - i,
    {
        assert(bytes@.subrange(0, i + 1).drop_last() =~= bytes@.subrange(0, i as int));
        sum = ((sum as u16 + bytes[i] as u16) % 256) as u8;
        i = i + 1;
    }
    assert(bytes@.subrange(0, i as int) =~= bytes@);
    ((256 - sum as u16) % 256) as u8
}

proof fn lemma_crc_shift_injective(a: u16, b: u16)
    requires
        a != b,
    ensures
        crc_shift(a) != crc_shift(b),
{
    assert(a != b ==> (if a & 1 == 1 { (a >> 1) ^ 0xA001u16 } else { a >> 1 }) != (if b & 1 == 1 {
        (b >> 1) ^ 0xA001u16
    } else {
        b >> 1
    })) by (bit_vector);
}

proof fn lemma_crc_rounds_injective(a: u16, b: u16, k: nat)
    requires
        a != b,
    ensures
        crc_rounds(a, k) != crc_rounds(b, k),
    decreases k,
{
    if k > 0 {
        lemma_crc_rounds_injective(a, b, (k - 1) as nat);
        lemma_crc_shift_injective(crc_rounds(a, (k - 1) as nat), crc_rounds(b, (k - 1) as nat));
    }
}

proof fn lemma_xor_differs(a: u16, b: u16, c: u16)
    requires
        a != b,
    ensures
        a ^ c != b ^ c,
{
    assert(a != b ==> a ^ c != b ^ c) by (bit_vector);
}

/// Changing one byte of a sequence, by any nonzero pattern of flipped bits, changes its
/// CRC-16.
pub proof fn lemma_crc16_detects_byte_change(s: Seq<u8>, j: int, x: u8)
    requires
        0 <= j < s.len(),
        x != 0,
    ensures
        crc16_of(s) != crc16_of(s.update(j, s[j] ^ x)),
    decreases s.len(),
{
    let t = s.update(j, s[j] ^ x);
    let n = s.len() - 1;
    if j == n {
        assert(s.drop_last() =~= t.drop_last());
        let r = crc16_of(s.drop_last());
        let a = s[j];
        assert(a ^ x != a) by (bit_vector)
            requires
                x != 0,
        ;
        assert((a as u16) != ((a ^ x) as u16));
        lemma_xor_differs(a as u16, (a ^ x) as u16, r);
        assert(r ^ (a as u16) == (a as u16) ^ r) by (bit_vector);
        assert(r ^ ((a ^ x) as u16) == ((a ^ x) as u16) ^ r) by (bit_vector);
        lemma_crc_rounds_injective(r ^ (a as u16), r ^ ((a ^ x) as u16), 8);
    } else {
        assert(t.drop_last() =~= s.drop_last().update(j, s[j] ^ x));
        lemma_crc16_detects_byte_change(s.drop_last(), j, x);
        let r1 = crc16_of(s.drop_last());
        let r2 = crc16_of(t.drop_last());
        lemma_xor_differs(r1, r2, s.last() as u16);
        lemma_crc_rounds_injective(r1 ^ (s.last() as u16), r2 ^ (s.last() as u16), 8);
    }
}

proof fn lemma_byte_sum_update(s: Seq<u8>, j: int, v: u8)
    requires
        0 <= j < s.len(),
    ensures
        byte_sum(s.update(j, v)) + s[j] == byte_sum(s) + v,
    decreases s.len(),
{
    let t = s.update(j, v);
    if j < s.len() - 1 {
        assert(t.drop_last() =~= s.drop_last().update(j, v));
        lemma_byte_sum_update(s.drop_last(), j, v);
    } else {
        assert(t.drop_last() =~= s.drop_last());
    }
}

/// Changing one byte of a sequence, by any nonzero pattern of flipped bits, changes its
/// LRC.
pub proof fn lemma_lrc8_detects_byte_change(s: Seq<u8>, j: int, x: u8)
    requires
        0 <= j < s.len(),
        x != 0,
    ensures
        lrc8_of(s) != lrc8_of(s.update(j, s[j] ^ x)),
{
    let a = s[j];
    assert(a ^ x != a) by (bit_vector)
        requires
            x != 0,
    ;
    lemma_byte_sum_update(s, j, a ^ x);
    let t = s.update(j, a ^ x);
    let p = byte_sum(s) as int;
    let q = byte_sum(t) as int;
    assert(q - p == (a ^ x) as int - a as int);
    assert(p % 256 != q % 256) by {
        if p % 256 == q % 256 {
            vstd::arithmetic::div_mod::lemma_fundamental_div_mod(p, 256);
            vstd::arithmetic::div_mod::lemma_fundamental_div_mod(q, 256);
            let d = q / 256 - p / 256;
            assert(q - p == 256 * d) by (nonlinear_arith)
                requires
                    p == 256 * (p / 256) + p % 256,
                    q == 256 * (q / 256) + q % 256,
                    p % 256 == q % 256,
                    d == q / 256 - p / 256,
            ;
            assert(-256 < q - p < 256);
            assert(d == 0) by (nonlinear_arith)
                requires
                    q - p == 256 * d,
                    -256 < q - p < 256,
            ;
        }
    }
}

} // verus!
