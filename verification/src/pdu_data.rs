//! Values that travel in the data of a PDU.

use crate::bytes::{le_16, le_32, le_u16, le_u32, u16_from_le, u32_from_le, word_16, word_32};
use vstd::prelude::*;

verus! {

/// A value that can be read from the data of a PDU.
pub trait PduRead: Sized {
    /// The number of bytes of an encoded value.
    spec fn encoded_len() -> u16;

    /// The value that the given bytes encode, if they encode one.
    spec fn decoded(bytes: Seq<u8>) -> Option<Self>;

    /// The number of bytes of an encoded value.
    fn len() -> (len: u16)
        ensures
            len == Self::encoded_len(),
    ;

    /// Decode a value.
    fn try_from_slice(slice: &[u8]) -> (value: Option<Self>)
        ensures
            value == Self::decoded(slice@),
    ;
}

/// A value that can be written to the data of a PDU and read back.
pub trait PduData: PduRead {
    /// The bytes that encode the value.
    spec fn encoded(self) -> Seq<u8>;

    /// Encode the value.
    fn as_bytes(&self) -> (bytes: Vec<u8>)
        ensures
            bytes@ == self.encoded(),
    ;

    /// An encoded value has the declared length, and reading it back gives the value.
    proof fn law_read_back(self)
        ensures
            self.encoded().len() == Self::encoded_len(),
            Self::decoded(self.encoded()) == Some(self),
    ;
}

impl PduRead for u8 {
    open spec fn encoded_len() -> u16 {
        1
    }

    open spec fn decoded(bytes: Seq<u8>) -> Option<u8> {
        if bytes.len() == 1 {
            Some(bytes[0])
        } else {
            None
        }
    }

    fn len() -> u16 {
        1
    }

    fn try_from_slice(slice: &[u8]) -> Option<u8> {
        if slice.len() == 1 {
            Some(slice[0])
        } else {
            None
        }
    }
}

impl PduData for u8 {
    open spec fn encoded(self) -> Seq<u8> {
        seq![self]
    }

    fn as_bytes(&self) -> Vec<u8> {
        vec![*self]
    }

    proof fn law_read_back(self) {
    }
}

impl PduRead for u16 {
    open spec fn encoded_len() -> u16 {
        2
    }

    open spec fn decoded(bytes: Seq<u8>) -> Option<u16> {
        if bytes.len() == 2 {
            Some(word_16(bytes[0], bytes[1]))
        } else {
            None
        }
    }

    fn len() -> u16 {
        2
    }

    fn try_from_slice(slice: &[u8]) -> Option<u16> {
        if slice.len() == 2 {
            Some(u16_from_le(slice[0], slice[1]))
        } else {
            None
        }
    }
}

impl PduData for u16 {
    open spec fn encoded(self) -> Seq<u8> {
        le_16(self)
    }

    fn as_bytes(&self) -> Vec<u8> {
        let bytes = le_u16(*self);

        vec![bytes[0], bytes[1]]
    }

    proof fn law_read_back(self) {
    }
}

impl PduRead for u32 {
    open spec fn encoded_len() -> u16 {
        4
    }

    open spec fn decoded(bytes: Seq<u8>) -> Option<u32> {
        if bytes.len() == 4 {
            Some(word_32(word_16(bytes[0], bytes[1]), word_16(bytes[2], bytes[3])))
        } else {
            None
        }
    }

    fn len() -> u16 {
        4
    }

    fn try_from_slice(slice: &[u8]) -> Option<u32> {
        if slice.len() == 4 {
            let low: u16 = u16_from_le(slice[0], slice[1]);
            let high: u16 = u16_from_le(slice[2], slice[3]);

            Some(u32_from_le(low, high))
        } else {
            None
        }
    }
}

impl PduData for u32 {
    open spec fn encoded(self) -> Seq<u8> {
        le_32(self)
    }

    fn as_bytes(&self) -> Vec<u8> {
        let bytes = le_u32(*self);

        vec![bytes[0], bytes[1], bytes[2], bytes[3]]
    }

    proof fn law_read_back(self) {
    }
}

impl PduRead for [u8; 2] {
    open spec fn encoded_len() -> u16 {
        2
    }

    open spec fn decoded(bytes: Seq<u8>) -> Option<[u8; 2]> {
        if bytes.len() == 2 {
            Some([bytes[0], bytes[1]])
        } else {
            None
        }
    }

    fn len() -> u16 {
        2
    }

    fn try_from_slice(slice: &[u8]) -> Option<[u8; 2]> {
        if slice.len() == 2 {
            Some([slice[0], slice[1]])
        } else {
            None
        }
    }
}

impl PduData for [u8; 2] {
    open spec fn encoded(self) -> Seq<u8> {
        self@
    }

    fn as_bytes(&self) -> Vec<u8> {
        let bytes = vec![self[0], self[1]];
        assert(bytes@ =~= self@);

        bytes
    }

    proof fn law_read_back(self) {
        assert([self@[0], self@[1]] =~= self);
    }
}

/// Integers travel with their lowest byte first, and bytes as they are.
pub proof fn law_values_travel_lowest_byte_first(byte: u8, short: u16, long: u32, pair: [u8; 2])
    ensures
        byte.encoded().len() == 1 && byte.encoded()[0] == byte,
        short.encoded().len() == 2 && short.encoded()[0] + 0x100 * short.encoded()[1] == short,
        long.encoded().len() == 4 && long.encoded()[0] + 0x100 * long.encoded()[1] + 0x1_0000
            * long.encoded()[2] + 0x100_0000 * long.encoded()[3] == long,
        pair.encoded().len() == 2 && pair.encoded()[0] == pair@[0] && pair.encoded()[1] == pair@[1],
{
}

/// A value is decoded exactly from as many bytes as it has, the first of which counts ones.
pub proof fn law_values_are_decoded_from_all_their_bytes(bytes: Seq<u8>)
    ensures
        <u8 as PduRead>::encoded_len() == 1,
        <u16 as PduRead>::encoded_len() == 2,
        <u32 as PduRead>::encoded_len() == 4,
        <[u8; 2] as PduRead>::encoded_len() == 2,
        <u8 as PduRead>::decoded(bytes) is Some <==> bytes.len() == 1,
        <u16 as PduRead>::decoded(bytes) is Some <==> bytes.len() == 2,
        <u32 as PduRead>::decoded(bytes) is Some <==> bytes.len() == 4,
        <[u8; 2] as PduRead>::decoded(bytes) is Some <==> bytes.len() == 2,
        <u8 as PduRead>::decoded(bytes) matches Some(v) ==> v == bytes[0],
        <u16 as PduRead>::decoded(bytes) matches Some(v) ==> v == bytes[0] + 0x100 * bytes[1],
        <u32 as PduRead>::decoded(bytes) matches Some(v) ==> v == bytes[0] + 0x100 * bytes[1]
            + 0x1_0000 * bytes[2] + 0x100_0000 * bytes[3],
        <[u8; 2] as PduRead>::decoded(bytes) matches Some(v) ==> v@[0] == bytes[0] && v@[1]
            == bytes[1],
{
}

} // verus!
