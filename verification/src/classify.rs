//! Classification of single bytes: allowed one-byte characters, UTF-8 leading
//! bytes and UTF-8 continuation bytes.

use vstd::arithmetic::power2::pow2;
use vstd::bits::lemma_u8_shr_is_div;
use vstd::prelude::*;

verus! {

/// Bit `i` of `byte`, counted from the least significant bit, is set.
pub open spec fn bit_is_set(byte: u8, i: u8) -> bool {
    (byte as nat / pow2(i as nat)) % 2 == 1
}

/// A one-byte character that may appear in a candidate: the printable range
/// `0x20..=0x7E`, line feed, or carriage return. Every other control
/// character, `0x7F` included, is excluded.
pub open spec fn allowed_ascii(byte: u8) -> bool {
    0x20 <= byte <= 0x7E || byte == 0x0A || byte == 0x0D
}

/// A continuation byte has `10` as its two most significant bits.
pub open spec fn continuation(byte: u8) -> bool {
    0x80 <= byte <= 0xBF
}

/// The number of continuation bytes that an accepted leading byte announces.
/// `0xC0`, `0xC1` and `0xF5..=0xFF` are not accepted as leading bytes.
pub open spec fn continuation_count(byte: u8) -> Option<u8> {
    if 0xC2 <= byte <= 0xDF {
        Some(1u8)
    } else if 0xE0 <= byte <= 0xEF {
        Some(2u8)
    } else if 0xF0 <= byte <= 0xF4 {
        Some(3u8)
    } else {
        None
    }
}

/// The top bit of a byte is set exactly for values of `0x80` and above, and
/// the two top bits are `10` exactly on the continuation range.
pub proof fn lemma_top_bits(byte: u8)
    ensures
        bit_is_set(byte, 7) <==> byte >= 0x80,
        bit_is_set(byte, 7) && !bit_is_set(byte, 6) <==> continuation(byte),
{
    lemma_u8_shr_is_div(byte, 7);
    lemma_u8_shr_is_div(byte, 6);
    assert((byte >> 7u8) % 2 == 1 <==> byte >= 0x80) by (bit_vector);
    assert(((byte >> 7u8) % 2 == 1 && (byte >> 6u8) % 2 != 1) <==> (0x80 <= byte <= 0xBF))
        by (bit_vector);
}

/// Tests bit `i` of `byte`, where bit 0 is the least significant.
pub fn bit_at(byte: u8, i: u8) -> (set: bool)
    requires
        i <= 7,
    ensures
        set == bit_is_set(byte, i),
{
    proof {
        lemma_u8_shr_is_div(byte, i);
        assert((byte & (1u8 << i) != 0) == ((byte >> i) % 2 == 1)) by (bit_vector)
            requires
                i <= 7,
        ;
    }
    byte & (1u8 << i) != 0
}

/// Whether `byte` lies in the 7-bit range.
pub fn is_ascii(byte: u8) -> (ascii: bool)
    ensures
        ascii == (byte <= 0x7F),
{
    proof {
        lemma_top_bits(byte);
    }
    !bit_at(byte, 7)
}

/// Whether `byte` is a one-byte character allowed inside a candidate.
pub fn is_non_control_ascii(byte: u8) -> (allowed: bool)
    ensures
        allowed == allowed_ascii(byte),
{
    is_ascii(byte) && byte >= 0x20 && byte != 0x7F || byte == 0x0A || byte == 0x0D
}

/// Whether `byte` is a UTF-8 continuation byte.
pub fn is_continuation_byte(byte: u8) -> (cont: bool)
    ensures
        cont == continuation(byte),
{
    proof {
        lemma_top_bits(byte);
    }
    bit_at(byte, 7) && !bit_at(byte, 6)
}

/// For an accepted leading byte, the number of continuation bytes that must
/// follow it; `None` for every other byte.
pub fn try_get_utf8_multibyte_len(byte: u8) -> (len: Option<u8>)
    ensures
        len == continuation_count(byte),
{
    if byte >= 0xC2 && byte <= 0xDF {
        Some(1)
    } else if byte >= 0xE0 && byte <= 0xEF {
        Some(2)
    } else if byte >= 0xF0 && byte <= 0xF4 {
        Some(3)
    } else {
        None
    }
}

} // verus!
