//! The bit-serial checksum (polynomial 0x04C11DB7, no reflection, no final
//! XOR) and byte extraction from 32-bit words.
use vstd::prelude::*;

verus! {

/// Polynomial of the checksum.
pub const POLYNOMIAL: u32 = 0x04C1_1DB7;

/// Value of the accumulator before any byte is processed.
pub const INITIAL: u32 = 0xFFFF_FFFF;

/// One shift step: shift left, folding in the polynomial when the top bit
/// falls out.
pub open spec fn crc_shift(c: u32) -> u32 {
    if c & 0x8000_0000u32 != 0 {
        ((c << 1u32) ^ 0x04C1_1DB7u32) as u32
    } else {
        (c << 1u32) as u32
    }
}

/// `n` shift steps applied to `c`.
pub open spec fn crc_shifts(c: u32, n: nat) -> u32
    decreases n,
{
    if n == 0 {
        c
    } else {
        crc_shift(crc_shifts(c, (n - 1) as nat))
    }
}

/// Folds one byte into the accumulator.
pub open spec fn crc_byte(c: u32, b: u8) -> u32 {
    crc_shifts(c ^ (b as u32), 32)
}

/// The checksum of a byte sequence.
pub open spec fn checksum(s: Seq<u8>) -> u32
    decreases s.len(),
{
    if s.len() == 0 {
        INITIAL
    } else {
        crc_byte(checksum(s.drop_last()), s.last())
    }
}

/// Byte `k` (0 is the least significant) of `x`.
pub open spec fn byte_of(x: u32, k: nat) -> u8 {
    ((x >> (8 * k) as u32) & 0xFFu32) as u8
}

/// The four bytes of `x`, least significant first.
pub open spec fn le_bytes(x: u32) -> Seq<u8> {
    seq![byte_of(x, 0), byte_of(x, 1), byte_of(x, 2), byte_of(x, 3)]
}

/// Byte number `index` of `number`, counting from 1 at the least
/// significant byte.
pub fn u32_to_u8(number: u32, index: u32) -> (r: u8)
    requires
        1 <= index <= 4,
    ensures
        r == byte_of(number, (index - 1) as nat),
{
    ((number >> (8 * (index - 1))) & 0xFF) as u8
}

/// Checksum of `buff`.
pub fn get_crc(buff: &[u8]) -> (r: u32)
    ensures
        r == checksum(buff@),
{
    let mut crc: u32 = INITIAL;
    let mut i: usize = 0;
    while i < buff.len()
        invariant
            i <= buff.len(),
            crc == checksum(buff@.subrange(0, i as int)),
        decreases buff.len() - i,
    {
        assert(buff@.subrange(0, i as int + 1).drop_last() =~= buff@.subrange(0, i as int));
        crc = crc ^ (buff[i] as u32);
        let start: Ghost<u32> = Ghost(crc);
        let mut j: u32 = 0;
        while j < 32
            invariant
                j <= 32,
                crc == crc_shifts(start@, j as nat),
            decreases 32 - j,
        {
            if crc & 0x8000_0000 != 0 {
                crc = (crc << 1) ^ POLYNOMIAL;
            } else {
                crc = crc << 1;
            }
            j = j + 1;
        }
        i = i + 1;
    }
    assert(buff@.subrange(0, buff.len() as int) =~= buff@);
    crc
}

/// The four bytes of `x`, least significant first.
pub fn u32_le_bytes(x: u32) -> (r: [u8; 4])
    ensures
        r@ == le_bytes(x),
{
    let r = [u32_to_u8(x, 1), u32_to_u8(x, 2), u32_to_u8(x, 3), u32_to_u8(x, 4)];
    assert(r@ =~= le_bytes(x));
    r
}

/// The checksum of the empty sequence is the initial accumulator.
pub proof fn lemma_checksum_empty()
    ensures
        checksum(Seq::<u8>::empty()) == 0xFFFF_FFFFu32,
{
}

/// The checksum depends on the bytes alone: equal inputs give equal
/// checksums, and appending a byte folds it into the previous result.
pub proof fn lemma_checksum_deterministic(a: Seq<u8>, b: Seq<u8>, x: u8)
    requires
        a == b,
    ensures
        checksum(a) == checksum(b),
        checksum(a.push(x)) == crc_byte(checksum(b), x),
{
    assert(a.push(x).drop_last() =~= a);
}

} // verus!
