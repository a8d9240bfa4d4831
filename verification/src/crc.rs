//! CRC-16/MODBUS: reflected polynomial 0xA001, initial value 0xFFFF,
//! appended to a frame low byte first.

use vstd::prelude::*;

verus! {

/// One bit of the shift register: shift right, and fold in the polynomial
/// when the bit shifted out was set.
pub open spec fn crc_step(c: u16) -> u16 {
    if c & 1 != 0 {
        (c >> 1) ^ 0xA001
    } else {
        c >> 1
    }
}

/// `n` bit steps applied to `c`.
pub open spec fn crc_shift(c: u16, n: nat) -> u16
    decreases n,
{
    if n == 0 {
        c
    } else {
        crc_step(crc_shift(c, (n - 1) as nat))
    }
}

/// The register after taking in one byte.
pub open spec fn crc_update(c: u16, b: u8) -> u16 {
    crc_shift(c ^ (b as u16), 8)
}

/// CRC-16/MODBUS of a byte sequence.
pub open spec fn crc16(data: Seq<u8>) -> u16
    decreases data.len(),
{
    if data.len() == 0 {
        0xFFFF
    } else {
        crc_update(crc16(data.drop_last()), data.last())
    }
}

/// The two bytes that carry a CRC on the wire: low byte first.
pub open spec fn crc_bytes(c: u16) -> Seq<u8> {
    seq![(c & 0xFF) as u8, (c >> 8) as u8]
}

/// A frame body followed by its CRC.
pub open spec fn with_crc(body: Seq<u8>) -> Seq<u8> {
    body + crc_bytes(crc16(body))
}

/// Computes the CRC-16/MODBUS of `data`.
pub fn calculate_crc(data: &[u8]) -> (crc: u16)
    ensures
        crc == crc16(data@),
{
    let mut crc: u16 = 0xFFFF;
    let mut i: usize = 0;
    assert(data@.take(0) =~= Seq::<u8>::empty());
    while i < data.len()
        invariant
            i <= data.len(),
            crc == crc16(data@.take(i as int)),
        decreases data.len() - i,
    {
        let byte = data[i];
        assert(data@.take(i + 1).drop_last() =~= data@.take(i as int));
        crc = crc ^ (byte as u16);
        let ghost start = crc;
        let mut j: u32 = 0;
        while j < 8
            invariant
                j <= 8,
                crc == crc_shift(start, j as nat),
            decreases 8 - j,
        {
            if crc & 0x0001 != 0 {
                crc = crc >> 1;
                crc = crc ^ 0xA001;
            } else {
                crc = crc >> 1;
            }
            j = j + 1;
        }
        i = i + 1;
    }
    assert(data@.take(data.len() as int) =~= data@);
    crc
}

/// While the low bits of the register are clear, a bit step is a plain
/// right shift.
proof fn lemma_shift_clear_low_bits(x: u16, k: u16)
    requires
        k <= 8,
        x & (((1u16 << k) - 1) as u16) == 0,
    ensures
        crc_shift(x, k as nat) == x >> k,
    decreases k,
{
    if k == 0 {
        assert(x >> 0u16 == x) by (bit_vector);
    } else {
        let km1: u16 = (k - 1) as u16;
        assert(x & (((1u16 << km1) - 1) as u16) == 0) by (bit_vector)
            requires
                1 <= k <= 8,
                km1 == k - 1,
                x & (((1u16 << k) - 1) as u16) == 0,
        ;
        lemma_shift_clear_low_bits(x, km1);
        assert((x >> km1) & 1 == 0 && (x >> km1) >> 1 == x >> k) by (bit_vector)
            requires
                1 <= k <= 8,
                km1 == k - 1,
                x & (((1u16 << k) - 1) as u16) == 0,
        ;
    }
}

/// A clear register stays clear.
proof fn lemma_shift_zero(n: nat)
    ensures
        crc_shift(0, n) == 0,
    decreases n,
{
    if n > 0 {
        lemma_shift_zero((n - 1) as nat);
        assert(0u16 & 1 == 0 && (0u16 >> 1) == 0) by (bit_vector);
    }
}

/// Taking in a sequence byte by byte: the CRC of `data` followed by `b`
/// is one update of the CRC of `data`.
pub proof fn lemma_crc16_push(data: Seq<u8>, b: u8)
    ensures
        crc16(data.push(b)) == crc_update(crc16(data), b),
{
    assert(data.push(b).drop_last() =~= data);
}

/// The CRC register after a run of bit steps `v[0]`, ..., `v[8]`.
proof fn lemma_shift_along(v: Seq<u16>, k: nat)
    requires
        v.len() == 9,
        k <= 8,
        forall|j: int| 0 <= j < 8 ==> #[trigger] crc_step(v[j]) == v[j + 1],
    ensures
        crc_shift(v[0], k) == v[k as int],
    decreases k,
{
    if k > 0 {
        lemma_shift_along(v, (k - 1) as nat);
    }
}

proof fn lemma_update_by_steps(c: u16, b: u8, v: Seq<u16>)
    requires
        v.len() == 9,
        v[0] == c ^ (b as u16),
        forall|j: int| 0 <= j < 8 ==> #[trigger] crc_step(v[j]) == v[j + 1],
    ensures
        crc_update(c, b) == v[8],
{
    lemma_shift_along(v, 8);
}

/// One bit step of the register, stated bit by bit: an odd register is
/// shifted right and XORed with the reflected polynomial 0xA001, an even
/// register is only shifted right.
pub proof fn lemma_crc_step_bits(c: u16)
    ensures
        c % 2 == 1 ==> crc_step(c) == (c / 2) ^ 0xA001u16,
        c % 2 == 0 ==> crc_step(c) == c / 2,
{
    assert((c & 1 != 0) == (c % 2 == 1) && c >> 1 == c / 2) by (bit_vector);
}

/// A byte is taken in by XORing it into the low byte of the register and
/// then running eight bit steps; the empty input leaves the initial value
/// 0xFFFF.
pub proof fn lemma_crc_update_is_eight_steps(c: u16, b: u8)
    ensures
        crc_update(c, b) == crc_step(crc_step(crc_step(crc_step(crc_step(crc_step(crc_step(
            crc_step(c ^ (b as u16)),
        ))))))),
        crc16(Seq::<u8>::empty()) == 0xFFFF,
{
    reveal_with_fuel(crc_shift, 9);
}

/// The catalogue check value of CRC-16/MODBUS: the CRC of the ASCII text
/// "123456789" is 0x4B37.
pub proof fn lemma_crc_check_value()
    ensures
        crc16(seq![0x31u8, 0x32, 0x33, 0x34, 0x35, 0x36, 0x37, 0x38, 0x39]) == 0x4B37,
{
    assert((0xFFFFu16 ^ (0x31u8 as u16)) == 0xFFCEu16 && crc_step(0xFFCEu16) == 0x7FE7u16 && crc_step(0x7FE7u16) == 0x9FF2u16 && crc_step(0x9FF2u16) == 0x4FF9u16 && crc_step(0x4FF9u16) == 0x87FDu16 && crc_step(0x87FDu16) == 0xE3FFu16 && crc_step(0xE3FFu16) == 0xD1FEu16 && crc_step(0xD1FEu16) == 0x68FFu16 && crc_step(0x68FFu16) == 0x947Eu16) by (bit_vector);
    lemma_update_by_steps(0xFFFFu16, 0x31u8, seq![0xFFCEu16, 0x7FE7u16, 0x9FF2u16, 0x4FF9u16, 0x87FDu16, 0xE3FFu16, 0xD1FEu16, 0x68FFu16, 0x947Eu16]);
    lemma_crc16_push(Seq::<u8>::empty(), 0x31u8);
    assert((0x947Eu16 ^ (0x32u8 as u16)) == 0x944Cu16 && crc_step(0x944Cu16) == 0x4A26u16 && crc_step(0x4A26u16) == 0x2513u16 && crc_step(0x2513u16) == 0xB288u16 && crc_step(0xB288u16) == 0x5944u16 && crc_step(0x5944u16) == 0x2CA2u16 && crc_step(0x2CA2u16) == 0x1651u16 && crc_step(0x1651u16) == 0xAB29u16 && crc_step(0xAB29u16) == 0xF595u16) by (bit_vector);
    lemma_update_by_steps(0x947Eu16, 0x32u8, seq![0x944Cu16, 0x4A26u16, 0x2513u16, 0xB288u16, 0x5944u16, 0x2CA2u16, 0x1651u16, 0xAB29u16, 0xF595u16]);
    lemma_crc16_push(Seq::<u8>::empty().push(0x31u8), 0x32u8);
    assert((0xF595u16 ^ (0x33u8 as u16)) == 0xF5A6u16 && crc_step(0xF5A6u16) == 0x7AD3u16 && crc_step(0x7AD3u16) == 0x9D68u16 && crc_step(0x9D68u16) == 0x4EB4u16 && crc_step(0x4EB4u16) == 0x275Au16 && crc_step(0x275Au16) == 0x13ADu16 && crc_step(0x13ADu16) == 0xA9D7u16 && crc_step(0xA9D7u16) == 0xF4EAu16 && crc_step(0xF4EAu16) == 0x7A75u16) by (bit_vector);
    lemma_update_by_steps(0xF595u16, 0x33u8, seq![0xF5A6u16, 0x7AD3u16, 0x9D68u16, 0x4EB4u16, 0x275Au16, 0x13ADu16, 0xA9D7u16, 0xF4EAu16, 0x7A75u16]);
    lemma_crc16_push(Seq::<u8>::empty().push(0x31u8).push(0x32u8), 0x33u8);
    assert((0x7A75u16 ^ (0x34u8 as u16)) == 0x7A41u16 && crc_step(0x7A41u16) == 0x9D21u16 && crc_step(0x9D21u16) == 0xEE91u16 && crc_step(0xEE91u16) == 0xD749u16 && crc_step(0xD749u16) == 0xCBA5u16 && crc_step(0xCBA5u16) == 0xC5D3u16 && crc_step(0xC5D3u16) == 0xC2E8u16 && crc_step(0xC2E8u16) == 0x6174u16 && crc_step(0x6174u16) == 0x30BAu16) by (bit_vector);
    lemma_update_by_steps(0x7A75u16, 0x34u8, seq![0x7A41u16, 0x9D21u16, 0xEE91u16, 0xD749u16, 0xCBA5u16, 0xC5D3u16, 0xC2E8u16, 0x6174u16, 0x30BAu16]);
    lemma_crc16_push(Seq::<u8>::empty().push(0x31u8).push(0x32u8).push(0x33u8), 0x34u8);
    assert((0x30BAu16 ^ (0x35u8 as u16)) == 0x308Fu16 && crc_step(0x308Fu16) == 0xB846u16 && crc_step(0xB846u16) == 0x5C23u16 && crc_step(0x5C23u16) == 0x8E10u16 && crc_step(0x8E10u16) == 0x4708u16 && crc_step(0x4708u16) == 0x2384u16 && crc_step(0x2384u16) == 0x11C2u16 && crc_step(0x11C2u16) == 0x08E1u16 && crc_step(0x08E1u16) == 0xA471u16) by (bit_vector);
    lemma_update_by_steps(0x30BAu16, 0x35u8, seq![0x308Fu16, 0xB846u16, 0x5C23u16, 0x8E10u16, 0x4708u16, 0x2384u16, 0x11C2u16, 0x08E1u16, 0xA471u16]);
    lemma_crc16_push(Seq::<u8>::empty().push(0x31u8).push(0x32u8).push(0x33u8).push(0x34u8), 0x35u8);
    assert((0xA471u16 ^ (0x36u8 as u16)) == 0xA447u16 && crc_step(0xA447u16) == 0xF222u16 && crc_step(0xF222u16) == 0x7911u16 && crc_step(0x7911u16) == 0x9C89u16 && crc_step(0x9C89u16) == 0xEE45u16 && crc_step(0xEE45u16) == 0xD723u16 && crc_step(0xD723u16) == 0xCB90u16 && crc_step(0xCB90u16) == 0x65C8u16 && crc_step(0x65C8u16) == 0x32E4u16) by (bit_vector);
    lemma_update_by_steps(0xA471u16, 0x36u8, seq![0xA447u16, 0xF222u16, 0x7911u16, 0x9C89u16, 0xEE45u16, 0xD723u16, 0xCB90u16, 0x65C8u16, 0x32E4u16]);
    lemma_crc16_push(Seq::<u8>::empty().push(0x31u8).push(0x32u8).push(0x33u8).push(0x34u8).push(0x35u8), 0x36u8);
    assert((0x32E4u16 ^ (0x37u8 as u16)) == 0x32D3u16 && crc_step(0x32D3u16) == 0xB968u16 && crc_step(0xB968u16) == 0x5CB4u16 && crc_step(0x5CB4u16) == 0x2E5Au16 && crc_step(0x2E5Au16) == 0x172Du16 && crc_step(0x172Du16) == 0xAB97u16 && crc_step(0xAB97u16) == 0xF5CAu16 && crc_step(0xF5CAu16) == 0x7AE5u16 && crc_step(0x7AE5u16) == 0x9D73u16) by (bit_vector);
    lemma_update_by_steps(0x32E4u16, 0x37u8, seq![0x32D3u16, 0xB968u16, 0x5CB4u16, 0x2E5Au16, 0x172Du16, 0xAB97u16, 0xF5CAu16, 0x7AE5u16, 0x9D73u16]);
    lemma_crc16_push(Seq::<u8>::empty().push(0x31u8).push(0x32u8).push(0x33u8).push(0x34u8).push(0x35u8).push(0x36u8), 0x37u8);
    assert((0x9D73u16 ^ (0x38u8 as u16)) == 0x9D4Bu16 && crc_step(0x9D4Bu16) == 0xEEA4u16 && crc_step(0xEEA4u16) == 0x7752u16 && crc_step(0x7752u16) == 0x3BA9u16 && crc_step(0x3BA9u16) == 0xBDD5u16 && crc_step(0xBDD5u16) == 0xFEEBu16 && crc_step(0xFEEBu16) == 0xDF74u16 && crc_step(0xDF74u16) == 0x6FBAu16 && crc_step(0x6FBAu16) == 0x37DDu16) by (bit_vector);
    lemma_update_by_steps(0x9D73u16, 0x38u8, seq![0x9D4Bu16, 0xEEA4u16, 0x7752u16, 0x3BA9u16, 0xBDD5u16, 0xFEEBu16, 0xDF74u16, 0x6FBAu16, 0x37DDu16]);
    lemma_crc16_push(Seq::<u8>::empty().push(0x31u8).push(0x32u8).push(0x33u8).push(0x34u8).push(0x35u8).push(0x36u8).push(0x37u8), 0x38u8);
    assert((0x37DDu16 ^ (0x39u8 as u16)) == 0x37E4u16 && crc_step(0x37E4u16) == 0x1BF2u16 && crc_step(0x1BF2u16) == 0x0DF9u16 && crc_step(0x0DF9u16) == 0xA6FDu16 && crc_step(0xA6FDu16) == 0xF37Fu16 && crc_step(0xF37Fu16) == 0xD9BEu16 && crc_step(0xD9BEu16) == 0x6CDFu16 && crc_step(0x6CDFu16) == 0x966Eu16 && crc_step(0x966Eu16) == 0x4B37u16) by (bit_vector);
    lemma_update_by_steps(0x37DDu16, 0x39u8, seq![0x37E4u16, 0x1BF2u16, 0x0DF9u16, 0xA6FDu16, 0xF37Fu16, 0xD9BEu16, 0x6CDFu16, 0x966Eu16, 0x4B37u16]);
    lemma_crc16_push(Seq::<u8>::empty().push(0x31u8).push(0x32u8).push(0x33u8).push(0x34u8).push(0x35u8).push(0x36u8).push(0x37u8).push(0x38u8), 0x39u8);
    assert(Seq::<u8>::empty().push(0x31u8).push(0x32u8).push(0x33u8).push(0x34u8).push(0x35u8).push(0x36u8).push(0x37u8).push(0x38u8).push(0x39u8) =~= seq![0x31u8, 0x32, 0x33, 0x34, 0x35, 0x36, 0x37, 0x38, 0x39]);
}

/// A frame that ends in its own CRC, low byte first, has CRC zero: this is
/// the check a receiver runs over a whole frame.
pub proof fn lemma_crc_of_framed_is_zero(body: Seq<u8>)
    ensures
        crc16(with_crc(body)) == 0,
{
    let c = crc16(body);
    let lo = (c & 0xFF) as u8;
    let hi = (c >> 8) as u8;
    assert(with_crc(body) =~= body.push(lo).push(hi));
    lemma_crc16_push(body, lo);
    lemma_crc16_push(body.push(lo), hi);
    let x = c ^ (lo as u16);
    assert(x & (((1u16 << 8u16) - 1) as u16) == 0 && x >> 8u16 == hi as u16) by (bit_vector)
        requires
            x == c ^ (lo as u16),
            lo == (c & 0xFF) as u8,
            hi == (c >> 8) as u8,
    ;
    lemma_shift_clear_low_bits(x, 8);
    assert(crc_update(c, lo) == hi as u16);
    assert((hi as u16) ^ (hi as u16) == 0) by (bit_vector);
    lemma_shift_zero(8);
}

} // verus!
