//! The candidates that a scan reports, described run by run: from a given
//! offset, the longest text, the byte that ends it, and where the search
//! goes on.

use crate::classify::{allowed_ascii, continuation, continuation_count};
use crate::cursor::Candidate;
use crate::model::{records_from, Mode, ScanState};
use crate::text::front_char_len;
use crate::tracking::null_run;
use vstd::prelude::*;

verus! {

/// The number of bytes of `bytes` at and after offset `from`.
pub open spec fn bytes_after(bytes: Seq<u8>, from: nat) -> nat {
    if from < bytes.len() {
        (bytes.len() - from) as nat
    } else {
        0
    }
}

/// The length in bytes of the character that begins at offset `at`, or 0
/// where no complete character begins there.
pub open spec fn char_len_at(bytes: Seq<u8>, at: nat) -> nat {
    if at < bytes.len() {
        front_char_len(bytes.skip(at as int))
    } else {
        0
    }
}

/// The length in bytes of the longest text that begins at offset `from`.
pub open spec fn text_len_at(bytes: Seq<u8>, from: nat) -> nat
    decreases bytes_after(bytes, from),
{
    let n = char_len_at(bytes, from);
    if n == 0 {
        0
    } else {
        n + text_len_at(bytes, from + n)
    }
}

/// The number of characters in the longest text that begins at offset
/// `from`.
pub open spec fn text_chars_at(bytes: Seq<u8>, from: nat) -> nat
    decreases bytes_after(bytes, from),
{
    let n = char_len_at(bytes, from);
    if n == 0 {
        0
    } else {
        1 + text_chars_at(bytes, from + n)
    }
}

/// The number of continuation bytes that follow one another from offset
/// `from`, counted up to `limit`.
pub open spec fn continuation_run(bytes: Seq<u8>, from: nat, limit: nat) -> nat
    decreases limit,
{
    if limit > 0 && from < bytes.len() && continuation(bytes[from as int]) {
        1 + continuation_run(bytes, from + 1, (limit - 1) as nat)
    } else {
        0
    }
}

/// The number of bytes that are passed over with the byte at offset `at`,
/// which begins no character and is not null: where it is a leading byte,
/// the continuation bytes that follow it and the byte that breaks the
/// character; otherwise none.
pub open spec fn skipped_after(bytes: Seq<u8>, at: nat) -> nat {
    match continuation_count(bytes[at as int]) {
        Some(n) => continuation_run(bytes, at + 1, n as nat) + 1,
        None => 0,
    }
}

/// The candidates that are found from offset `from` on, where a candidate
/// may begin. The longest text from there is taken. If the bytes end with
/// it, nothing is found. If a null byte follows, the text is a candidate
/// where it has a character and at least `min_len` of them, with the null
/// bytes after its terminator, and the search goes on after those; a text
/// that is too short is passed over with its terminator alone. If another
/// byte follows, the text is passed over with it and with what
/// `skipped_after` counts.
pub open spec fn strings_from(bytes: Seq<u8>, from: nat, min_len: nat) -> Seq<Candidate>
    decreases bytes_after(bytes, from),
{
    let end = from + text_len_at(bytes, from);
    let chars = text_chars_at(bytes, from);
    if end >= bytes.len() {
        Seq::empty()
    } else if bytes[end as int] == 0 {
        if chars >= 1 && chars >= min_len {
            let found = Candidate {
                start_offset: from,
                byte_length: text_len_at(bytes, from),
                char_count: chars,
                trailing_nulls: null_run(bytes, end + 1),
            };
            seq![found] + strings_from(bytes, found.resume_offset(), min_len)
        } else {
            strings_from(bytes, end + 1, min_len)
        }
    } else {
        strings_from(bytes, end + 1 + skipped_after(bytes, end), min_len)
    }
}

/// The candidates that are found in `bytes`.
pub open spec fn strings_in(bytes: Seq<u8>, min_len: nat) -> Seq<Candidate> {
    strings_from(bytes, 0, min_len)
}

/// The state in which characters are accumulated into candidate `c`.
pub open spec fn building(c: Candidate) -> ScanState {
    ScanState { candidate: c, mode: Mode::Building }
}

/// The state in which the search for a candidate begins at offset `from`.
pub open spec fn searching_from(from: nat) -> ScanState {
    building(Candidate::empty_at(from))
}

/// A run of continuation bytes is no longer than its limit.
proof fn lemma_continuation_run_bound(bytes: Seq<u8>, from: nat, limit: nat)
    ensures
        continuation_run(bytes, from, limit) <= limit,
    decreases limit,
{
    if limit > 0 {
        lemma_continuation_run_bound(bytes, from + 1, (limit - 1) as nat);
    }
}

/// A leading byte begins a character exactly where all the continuation
/// bytes that it announces follow it.
proof fn lemma_char_len_of_leading(bytes: Seq<u8>, at: nat)
    requires
        at < bytes.len(),
        !allowed_ascii(bytes[at as int]),
        continuation_count(bytes[at as int]) is Some,
    ensures
        ({
            let n = continuation_count(bytes[at as int])->0 as nat;
            char_len_at(bytes, at) == if continuation_run(bytes, at + 1, n) == n {
                n + 1
            } else {
                0
            }
        }),
{
    let s = bytes.skip(at as int);
    reveal_with_fuel(continuation_run, 4);
    if s.len() > 1 {
        assert(s[1] == bytes[at as int + 1]);
    }
    if s.len() > 2 {
        assert(s[2] == bytes[at as int + 2]);
    }
    if s.len() > 3 {
        assert(s[3] == bytes[at as int + 3]);
    }
}

/// Where no character begins, the byte is null, or a leading byte whose
/// character is broken or cut short, or a byte that begins nothing.
proof fn lemma_no_char(bytes: Seq<u8>, at: nat)
    requires
        at < bytes.len(),
        char_len_at(bytes, at) == 0,
    ensures
        !allowed_ascii(bytes[at as int]),
        continuation_count(bytes[at as int]) matches Some(n) ==> continuation_run(
            bytes,
            at + 1,
            n as nat,
        ) < n,
{
    if continuation_count(bytes[at as int]) is Some {
        let n = continuation_count(bytes[at as int])->0 as nat;
        lemma_char_len_of_leading(bytes, at);
        lemma_continuation_run_bound(bytes, at + 1, n);
    }
}

/// The longest text from an offset has a character exactly where it has a
/// byte, and no character begins where it ends.
proof fn lemma_text_run(bytes: Seq<u8>, from: nat)
    ensures
        text_chars_at(bytes, from) == 0 <==> text_len_at(bytes, from) == 0,
        char_len_at(bytes, from + text_len_at(bytes, from)) == 0,
    decreases bytes_after(bytes, from),
{
    let n = char_len_at(bytes, from);
    if n != 0 {
        lemma_text_run(bytes, from + n);
    }
}

/// Inside a multi-byte character whose remaining bytes all follow, the scan
/// goes on as from the state in which the character is complete.
proof fn lemma_scan_completes_char(c: Candidate, remaining: nat, bytes: Seq<u8>, min_len: nat)
    requires
        remaining >= 1,
        continuation_run(bytes, c.text_end(), remaining) == remaining,
    ensures
        records_from(ScanState { candidate: c, mode: Mode::InMultibyte { remaining } }, bytes, min_len)
            == records_from(
            building(Candidate { byte_length: c.byte_length + remaining, ..c }),
            bytes,
            min_len,
        ),
    decreases remaining,
{
    if remaining > 1 {
        lemma_scan_completes_char(c.push_continuation(), (remaining - 1) as nat, bytes, min_len);
    }
}

/// Inside a multi-byte character of which fewer bytes follow than remain,
/// the scan goes on as a search from the offset after the byte that breaks
/// the character.
proof fn lemma_scan_breaks_char(c: Candidate, remaining: nat, bytes: Seq<u8>, min_len: nat)
    requires
        continuation_run(bytes, c.text_end(), remaining) < remaining,
    ensures
        records_from(ScanState { candidate: c, mode: Mode::InMultibyte { remaining } }, bytes, min_len)
            == records_from(
            searching_from(c.text_end() + continuation_run(bytes, c.text_end(), remaining) + 1),
            bytes,
            min_len,
        ),
    decreases remaining,
{
    if continuation_run(bytes, c.text_end(), remaining) > 0 {
        lemma_scan_breaks_char(c.push_continuation(), (remaining - 1) as nat, bytes, min_len);
    }
}

/// While characters are accumulated, the scan goes on as from the state in
/// which the longest text from the offset reached has been taken in.
proof fn lemma_scan_takes_text(c: Candidate, bytes: Seq<u8>, min_len: nat)
    ensures
        records_from(building(c), bytes, min_len) == records_from(
            building(
                Candidate {
                    byte_length: c.byte_length + text_len_at(bytes, c.text_end()),
                    char_count: c.char_count + text_chars_at(bytes, c.text_end()),
                    ..c
                },
            ),
            bytes,
            min_len,
        ),
    decreases bytes_after(bytes, c.text_end()),
{
    let at = c.text_end();
    let n = char_len_at(bytes, at);
    if n != 0 {
        if allowed_ascii(bytes[at as int]) {
            lemma_scan_takes_text(c.push_char(), bytes, min_len);
        } else {
            lemma_char_len_of_leading(bytes, at);
            let after = c.push_char();
            lemma_scan_completes_char(after, (n - 1) as nat, bytes, min_len);
            lemma_scan_takes_text(
                Candidate { byte_length: after.byte_length + (n - 1) as nat, ..after },
                bytes,
                min_len,
            );
        }
    }
}

/// After the terminator of an accepted candidate, the scan reports the
/// candidate with all the null bytes that follow counted, and goes on as a
/// search from the offset after them.
proof fn lemma_scan_counts_nulls(c: Candidate, bytes: Seq<u8>, min_len: nat)
    ensures
        ({
            let found = Candidate {
                trailing_nulls: c.trailing_nulls + null_run(bytes, c.resume_offset()),
                ..c
            };
            records_from(ScanState { candidate: c, mode: Mode::Terminated }, bytes, min_len)
                == seq![found] + records_from(
                searching_from(found.resume_offset()),
                bytes,
                min_len,
            )
        }),
    decreases bytes_after(bytes, c.resume_offset()),
{
    let at = c.resume_offset();
    if at < bytes.len() && bytes[at as int] == 0 {
        lemma_scan_counts_nulls(c.push_null(), bytes, min_len);
    }
}

/// A search from an offset reports the candidates that are found from it.
pub proof fn lemma_scan_from(bytes: Seq<u8>, from: nat, min_len: nat)
    ensures
        records_from(searching_from(from), bytes, min_len) == strings_from(bytes, from, min_len),
    decreases bytes_after(bytes, from),
{
    let len = text_len_at(bytes, from);
    let chars = text_chars_at(bytes, from);
    let end = from + len;
    let c = Candidate { start_offset: from, byte_length: len, char_count: chars, trailing_nulls: 0 };
    lemma_scan_takes_text(Candidate::empty_at(from), bytes, min_len);
    lemma_text_run(bytes, from);
    if end < bytes.len() {
        let byte = bytes[end as int];
        lemma_no_char(bytes, end);
        if byte == 0 {
            if chars >= 1 && chars >= min_len {
                lemma_scan_counts_nulls(c, bytes, min_len);
                lemma_scan_from(bytes, end + 1 + null_run(bytes, end + 1), min_len);
            } else {
                lemma_scan_from(bytes, end + 1, min_len);
            }
        } else if continuation_count(byte) is Some {
            let n = continuation_count(byte)->0 as nat;
            lemma_scan_breaks_char(c.push_char(), n, bytes, min_len);
            lemma_scan_from(bytes, end + 1 + skipped_after(bytes, end), min_len);
        } else {
            lemma_scan_from(bytes, end + 1, min_len);
        }
    }
}

} // verus!
