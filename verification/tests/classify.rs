use binstrings::classify::{
    bit_at, is_ascii, is_continuation_byte, is_non_control_ascii, try_get_utf8_multibyte_len,
};

#[test]
fn bit_at_reads_each_bit() {
    assert!(bit_at(0b0000_0001, 0));
    assert!(!bit_at(0b0000_0001, 1));
    assert!(bit_at(0b1000_0000, 7));
    assert!(!bit_at(0b0111_1111, 7));
    assert!(bit_at(0b0100_0000, 6));
    assert!(!bit_at(0b1011_1111, 6));
    assert!(bit_at(0xFF, 3));
    assert!(!bit_at(0x00, 3));
}

#[test]
fn bit_at_is_division_by_a_power_of_two() {
    for byte in 0u8..=255 {
        for i in 0u8..8 {
            let expected = (u32::from(byte) / 2u32.pow(u32::from(i))) % 2 == 1;
            assert_eq!(bit_at(byte, i), expected, "byte {byte:#04x}, bit {i}");
        }
    }
}

#[test]
fn is_ascii_is_the_seven_bit_range() {
    assert!(is_ascii(0x00));
    assert!(is_ascii(0x41));
    assert!(is_ascii(0x7F));
    assert!(!is_ascii(0x80));
    assert!(!is_ascii(0xFF));
    for byte in 0u8..=255 {
        assert_eq!(is_ascii(byte), byte <= 0x7F);
    }
}

#[test]
fn printable_range_is_allowed() {
    assert!(is_non_control_ascii(0x20));
    assert!(is_non_control_ascii(b'A'));
    assert!(is_non_control_ascii(b'~'));
    assert!(is_non_control_ascii(0x7E));
}

#[test]
fn line_feed_and_carriage_return_are_allowed() {
    assert!(is_non_control_ascii(0x0A));
    assert!(is_non_control_ascii(0x0D));
}

#[test]
fn other_control_characters_are_not_allowed() {
    assert!(!is_non_control_ascii(0x00));
    assert!(!is_non_control_ascii(0x01));
    assert!(!is_non_control_ascii(0x09));
    assert!(!is_non_control_ascii(0x0B));
    assert!(!is_non_control_ascii(0x0C));
    assert!(!is_non_control_ascii(0x1F));
    assert!(!is_non_control_ascii(0x7F));
}

#[test]
fn bytes_above_the_seven_bit_range_are_not_one_byte_characters() {
    for byte in 0x80u8..=0xFF {
        assert!(!is_non_control_ascii(byte));
    }
}

#[test]
fn allowed_bytes_are_exactly_the_documented_set() {
    for byte in 0u8..=255 {
        let expected = (0x20..=0x7E).contains(&byte) || byte == 0x0A || byte == 0x0D;
        assert_eq!(is_non_control_ascii(byte), expected, "byte {byte:#04x}");
    }
}

#[test]
fn continuation_bytes_have_top_bits_one_zero() {
    assert!(is_continuation_byte(0x80));
    assert!(is_continuation_byte(0xA9));
    assert!(is_continuation_byte(0xBF));
    assert!(!is_continuation_byte(0x7F));
    assert!(!is_continuation_byte(0xC0));
    assert!(!is_continuation_byte(0x00));
    assert!(!is_continuation_byte(0xFF));
    for byte in 0u8..=255 {
        assert_eq!(is_continuation_byte(byte), byte >> 6 == 0b10);
    }
}

#[test]
fn leading_byte_ranges_announce_their_continuation_bytes() {
    assert_eq!(try_get_utf8_multibyte_len(0xC2), Some(1));
    assert_eq!(try_get_utf8_multibyte_len(0xDF), Some(1));
    assert_eq!(try_get_utf8_multibyte_len(0xE0), Some(2));
    assert_eq!(try_get_utf8_multibyte_len(0xEF), Some(2));
    assert_eq!(try_get_utf8_multibyte_len(0xF0), Some(3));
    assert_eq!(try_get_utf8_multibyte_len(0xF4), Some(3));
}

#[test]
fn bytes_outside_the_leading_ranges_announce_nothing() {
    assert_eq!(try_get_utf8_multibyte_len(0x00), None);
    assert_eq!(try_get_utf8_multibyte_len(0x41), None);
    assert_eq!(try_get_utf8_multibyte_len(0x80), None);
    assert_eq!(try_get_utf8_multibyte_len(0xBF), None);
    assert_eq!(try_get_utf8_multibyte_len(0xC0), None);
    assert_eq!(try_get_utf8_multibyte_len(0xC1), None);
    assert_eq!(try_get_utf8_multibyte_len(0xF5), None);
    assert_eq!(try_get_utf8_multibyte_len(0xFF), None);
}

#[test]
fn leading_byte_lengths_over_all_bytes() {
    for byte in 0u8..=255 {
        let expected = match byte {
            0xC2..=0xDF => Some(1),
            0xE0..=0xEF => Some(2),
            0xF0..=0xF4 => Some(3),
            _ => None,
        };
        assert_eq!(try_get_utf8_multibyte_len(byte), expected, "byte {byte:#04x}");
    }
}
