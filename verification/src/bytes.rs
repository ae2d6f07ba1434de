//! Little endian encodings of the integers that travel in PDUs.

use vstd::prelude::*;

verus! {

/// The two bytes of a 16 bit integer, lowest first.
pub open spec fn le_16(value: u16) -> Seq<u8> {
    seq![(value % 256) as u8, (value / 256) as u8]
}

/// The four bytes of a 32 bit integer, lowest first.
pub open spec fn le_32(value: u32) -> Seq<u8> {
    le_16((value % 0x1_0000) as u16) + le_16((value / 0x1_0000) as u16)
}

/// The 16 bit integer with the given low and high byte.
pub open spec fn word_16(low: u8, high: u8) -> u16 {
    (low + 256 * high) as u16
}

/// The 32 bit integer with the given low and high 16 bits.
pub open spec fn word_32(low: u16, high: u16) -> u32 {
    (low + 0x1_0000 * high) as u32
}

/// Encode a 16 bit integer.
pub fn le_u16(value: u16) -> (bytes: [u8; 2])
    ensures
        bytes@ == le_16(value),
{
    [(value % 256) as u8, (value / 256) as u8]
}

/// Encode a 32 bit integer.
pub fn le_u32(value: u32) -> (bytes: [u8; 4])
    ensures
        bytes@ == le_32(value),
{
    let low: u16 = (value % 0x1_0000) as u16;
    let high: u16 = (value / 0x1_0000) as u16;

    [(low % 256) as u8, (low / 256) as u8, (high % 256) as u8, (high / 256) as u8]
}

/// Decode a 16 bit integer.
pub fn u16_from_le(low: u8, high: u8) -> (value: u16)
    ensures
        value == word_16(low, high),
{
    low as u16 + 256 * (high as u16)
}

/// Decode a 32 bit integer from its low and high 16 bits.
pub fn u32_from_le(low: u16, high: u16) -> (value: u32)
    ensures
        value == word_32(low, high),
{
    low as u32 + 0x1_0000 * (high as u32)
}

/// Decoding a 16 bit integer's bytes gives the integer, and encoding that gives the bytes again.
pub proof fn law_16_bit_round_trip(value: u16, low: u8, high: u8)
    ensures
        word_16(le_16(value)[0], le_16(value)[1]) == value,
        le_16(word_16(low, high)) == seq![low, high],
{
}

/// Decoding a 32 bit integer's halves gives the integer, and splitting that gives the halves again.
pub proof fn law_32_bit_round_trip(value: u32, low: u16, high: u16)
    ensures
        word_32((value % 0x1_0000) as u16, (value / 0x1_0000) as u16) == value,
        le_32(word_32(low, high)) == le_16(low) + le_16(high),
{
}

/// The first byte of an encoded integer counts ones, and each byte after it counts 256 times as much
/// as the one before it.
pub proof fn law_first_byte_is_lowest(short: u16, long: u32, two: [u8; 2], four: [u8; 4])
    requires
        call_ensures(le_u16, (short,), two),
        call_ensures(le_u32, (long,), four),
    ensures
        two@[0] + 0x100 * two@[1] == short,
        four@[0] + 0x100 * four@[1] + 0x1_0000 * four@[2] + 0x100_0000 * four@[3] == long,
        le_16(short).len() == 2,
        le_16(short)[0] + 0x100 * le_16(short)[1] == short,
        le_32(long).len() == 4,
        le_32(long)[0] + 0x100 * le_32(long)[1] + 0x1_0000 * le_32(long)[2] + 0x100_0000
            * le_32(long)[3] == long,
{
}

/// The low part of a decoded integer counts ones, and the high part counts as much as all values of
/// the low part together.
pub proof fn law_decoded_integers_are_positional(
    low: u8,
    high: u8,
    low_16: u16,
    high_16: u16,
    short: u16,
    long: u32,
)
    requires
        call_ensures(u16_from_le, (low, high), short),
        call_ensures(u32_from_le, (low_16, high_16), long),
    ensures
        short == low + 0x100 * high,
        long == low_16 + 0x1_0000 * high_16,
        word_16(low, high) == low + 0x100 * high,
        word_32(low_16, high_16) == low_16 + 0x1_0000 * high_16,
{
}

} // verus!
