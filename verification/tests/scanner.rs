use binstrings::cursor::{cursor_reset_string, ScanCursor};
use binstrings::record::StringRecord;
use binstrings::scanner::{Phase, Scanner, DEFAULT_MIN_LEN};

fn cursor(start_offset: u64, byte_length: u64, char_count: u64, trailing_nulls: u64) -> ScanCursor {
    ScanCursor { start_offset, byte_length, char_count, trailing_nulls }
}

#[test]
fn default_minimum_length_is_three() {
    assert_eq!(DEFAULT_MIN_LEN, 3);
}

#[test]
fn new_cursor_is_reset() {
    let c = ScanCursor::new(17);
    assert_eq!(c, cursor(17, 0, 0, 0));
    assert!(c.is_reset());
    assert!(!cursor(17, 1, 1, 0).is_reset());
    assert!(!cursor(17, 0, 0, 1).is_reset());
}

#[test]
fn resume_offset_skips_text_terminator_and_nulls() {
    assert_eq!(cursor(0, 5, 5, 2).resume_offset(), 8);
    assert_eq!(cursor(10, 0, 0, 0).resume_offset(), 11);
    assert_eq!(cursor(4, 3, 3, 1).resume_offset(), 9);
}

#[test]
fn reset_moves_the_start_and_zeroes_the_counts() {
    assert_eq!(cursor_reset_string(cursor(0, 5, 5, 2)), cursor(8, 0, 0, 0));
    assert_eq!(cursor_reset_string(cursor(7, 0, 0, 0)), cursor(8, 0, 0, 0));
    assert_eq!(cursor_reset_string(cursor(3, 4, 2, 0)), cursor(8, 0, 0, 0));
}

#[test]
fn new_scanner_starts_at_offset_zero() {
    let s = Scanner::new(5);
    assert_eq!(s.min_len(), 5);
    assert_eq!(s.position(), 0);
    assert_eq!(s.phase(), Phase::Building);
    assert_eq!(s.cursor(), cursor(0, 0, 0, 0));
}

#[test]
fn one_byte_characters_are_appended() {
    let mut s = Scanner::new(3);
    assert_eq!(s.process_byte(b'H'), None);
    assert_eq!(s.process_byte(b'i'), None);
    assert_eq!(s.cursor(), cursor(0, 2, 2, 0));
    assert_eq!(s.phase(), Phase::Building);
    assert_eq!(s.position(), 2);
}

#[test]
fn leading_null_bytes_move_the_start() {
    let mut s = Scanner::new(1);
    for expected in 1..=3u64 {
        assert_eq!(s.process_byte(0), None);
        assert_eq!(s.cursor(), cursor(expected, 0, 0, 0));
        assert_eq!(s.phase(), Phase::Building);
    }
}

#[test]
fn multibyte_character_counts_once() {
    let mut s = Scanner::new(1);
    assert_eq!(s.process_byte(0xE2), None);
    assert_eq!(s.phase(), Phase::InMultibyte { remaining: 2 });
    assert_eq!(s.cursor(), cursor(0, 1, 1, 0));
    assert_eq!(s.process_byte(0x82), None);
    assert_eq!(s.phase(), Phase::InMultibyte { remaining: 1 });
    assert_eq!(s.cursor(), cursor(0, 2, 1, 0));
    assert_eq!(s.process_byte(0xAC), None);
    assert_eq!(s.phase(), Phase::Building);
    assert_eq!(s.cursor(), cursor(0, 3, 1, 0));
    assert_eq!(s.position(), 3);
}

#[test]
fn four_byte_character_expects_three_continuation_bytes() {
    let mut s = Scanner::new(1);
    assert_eq!(s.process_byte(0xF0), None);
    assert_eq!(s.phase(), Phase::InMultibyte { remaining: 3 });
    assert_eq!(s.process_byte(0x9F), None);
    assert_eq!(s.process_byte(0x98), None);
    assert_eq!(s.phase(), Phase::InMultibyte { remaining: 1 });
    assert_eq!(s.process_byte(0x80), None);
    assert_eq!(s.phase(), Phase::Building);
    assert_eq!(s.cursor(), cursor(0, 4, 1, 0));
}

#[test]
fn bad_continuation_byte_abandons_the_candidate_and_is_consumed() {
    let mut s = Scanner::new(1);
    assert_eq!(s.process_byte(b'A'), None);
    assert_eq!(s.process_byte(0xE2), None);
    assert_eq!(s.process_byte(0x82), None);
    assert_eq!(s.process_byte(b'B'), None);
    assert_eq!(s.phase(), Phase::Building);
    assert_eq!(s.cursor(), cursor(4, 0, 0, 0));
    assert_eq!(s.position(), 4);
}

#[test]
fn null_byte_inside_a_multibyte_character_abandons_the_candidate() {
    let mut s = Scanner::new(1);
    assert_eq!(s.process_byte(b'A'), None);
    assert_eq!(s.process_byte(0xC3), None);
    assert_eq!(s.process_byte(0x00), None);
    assert_eq!(s.phase(), Phase::Building);
    assert_eq!(s.cursor(), cursor(3, 0, 0, 0));
}

#[test]
fn invalid_byte_abandons_the_candidate() {
    for bad in [0x01u8, 0x09, 0x1F, 0x7F, 0x80, 0xBF, 0xC0, 0xC1, 0xF5, 0xFF] {
        let mut s = Scanner::new(1);
        assert_eq!(s.process_byte(b'A'), None);
        assert_eq!(s.process_byte(b'B'), None);
        assert_eq!(s.process_byte(bad), None, "byte {bad:#04x}");
        assert_eq!(s.phase(), Phase::Building);
        assert_eq!(s.cursor(), cursor(3, 0, 0, 0), "byte {bad:#04x}");
    }
}

#[test]
fn terminator_of_a_long_enough_candidate_starts_the_null_count() {
    let mut s = Scanner::new(2);
    assert_eq!(s.process_byte(b'H'), None);
    assert_eq!(s.process_byte(b'i'), None);
    assert_eq!(s.process_byte(0), None);
    assert_eq!(s.phase(), Phase::Terminated);
    assert_eq!(s.cursor(), cursor(0, 2, 2, 0));
    assert_eq!(s.position(), 3);
    assert_eq!(s.process_byte(0), None);
    assert_eq!(s.process_byte(0), None);
    assert_eq!(s.cursor(), cursor(0, 2, 2, 2));
    assert_eq!(s.position(), 5);
}

#[test]
fn byte_after_the_null_run_reports_and_is_expected_again() {
    let mut s = Scanner::new(2);
    for b in [b'H', b'i', 0, 0] {
        assert_eq!(s.process_byte(b), None);
    }
    assert_eq!(s.position(), 4);
    assert_eq!(s.process_byte(b'x'), Some(cursor(0, 2, 2, 1)));
    assert_eq!(s.position(), 4);
    assert_eq!(s.phase(), Phase::Building);
    assert_eq!(s.cursor(), cursor(4, 0, 0, 0));
    assert_eq!(s.process_byte(b'x'), None);
    assert_eq!(s.position(), 5);
    assert_eq!(s.cursor(), cursor(4, 1, 1, 0));
}

#[test]
fn terminator_of_a_short_candidate_drops_it_without_counting_nulls() {
    let mut s = Scanner::new(3);
    assert_eq!(s.process_byte(b'A'), None);
    assert_eq!(s.process_byte(b'B'), None);
    assert_eq!(s.process_byte(0), None);
    assert_eq!(s.phase(), Phase::Building);
    assert_eq!(s.cursor(), cursor(3, 0, 0, 0));
    assert_eq!(s.process_byte(0), None);
    assert_eq!(s.cursor(), cursor(4, 0, 0, 0));
}

#[test]
fn finish_reports_a_terminated_candidate() {
    let mut s = Scanner::new(1);
    assert_eq!(s.process_byte(b'A'), None);
    assert_eq!(s.process_byte(0), None);
    assert_eq!(s.process_byte(0), None);
    assert_eq!(s.finish(), Some(cursor(0, 1, 1, 1)));
    assert_eq!(s.phase(), Phase::Building);
    assert_eq!(s.cursor(), cursor(3, 0, 0, 0));
    assert_eq!(s.finish(), None);
}

#[test]
fn finish_discards_an_unterminated_candidate() {
    let mut s = Scanner::new(1);
    assert_eq!(s.process_byte(b'A'), None);
    assert_eq!(s.process_byte(b'B'), None);
    assert_eq!(s.finish(), None);
    assert_eq!(s.phase(), Phase::Building);
    assert_eq!(s.cursor(), cursor(2, 0, 0, 0));
    assert_eq!(s.position(), 2);
}

#[test]
fn finish_discards_a_truncated_multibyte_character() {
    let mut s = Scanner::new(1);
    assert_eq!(s.process_byte(b'A'), None);
    assert_eq!(s.process_byte(0xE2), None);
    assert_eq!(s.process_byte(0x82), None);
    assert_eq!(s.finish(), None);
    assert_eq!(s.phase(), Phase::Building);
    assert_eq!(s.cursor(), cursor(3, 0, 0, 0));
}

#[test]
fn start_offset_never_moves_back() {
    let bytes = b"ab\0\0cde\0\x01\xC3\xA9\xC3(fgh\0\0\0ij\x7Fklm\0";
    let mut s = Scanner::new(3);
    let mut last = s.cursor().start_offset;
    let mut at = 0usize;
    while at < bytes.len() {
        assert_eq!(s.position(), at as u64);
        let reported = s.process_byte(bytes[at]);
        assert!(s.cursor().start_offset >= last);
        last = s.cursor().start_offset;
        if reported.is_none() {
            at += 1;
        }
        assert!(s.cursor().byte_length >= s.cursor().char_count);
    }
}

#[test]
fn record_takes_the_cursor_and_decodes_the_bytes() {
    let r = StringRecord::new(cursor(3, 2, 1, 4), &[0xC3, 0xA9]);
    assert_eq!(r.start_offset, 3);
    assert_eq!(r.byte_length, 2);
    assert_eq!(r.char_count, 1);
    assert_eq!(r.trailing_nulls, 4);
    assert_eq!(r.text, "é");
    assert_eq!(r.cursor(), cursor(3, 2, 1, 4));
}

#[test]
fn record_text_replaces_what_is_not_utf8() {
    let r = StringRecord::new(cursor(0, 3, 1, 0), &[0xE0, 0x80, 0x80]);
    assert_eq!(r.text, String::from_utf8_lossy(&[0xE0, 0x80, 0x80]));
    assert_eq!(r.text, "\u{FFFD}\u{FFFD}\u{FFFD}");
}
