//! How the state of a scan relates to the bytes that it has consumed, and
//! what this says of every candidate that is reported.

use crate::classify::{allowed_ascii, continuation, continuation_count};
use crate::cursor::Candidate;
use crate::model::{initial_state, position, step, step_end, well_formed, Mode, ScanState};
use crate::text::{all_continuation, is_text, lemma_text_push_char};
use vstd::prelude::*;

verus! {

/// The bytes of `bytes` that candidate `c` spans.
pub open spec fn candidate_text(c: Candidate, bytes: Seq<u8>) -> Seq<u8> {
    bytes.subrange(c.start_offset as int, c.text_end() as int)
}

/// Every byte of `bytes` from offset `from` up to, not including, `to` is
/// null.
pub open spec fn all_null(bytes: Seq<u8>, from: int, to: int) -> bool {
    forall|j: int| from <= j < to ==> #[trigger] bytes[j] == 0
}

/// The length of the longest run of null bytes in `bytes` that begins at
/// offset `from`.
pub open spec fn null_run(bytes: Seq<u8>, from: nat) -> nat
    decreases bytes.len() - from,
{
    if from < bytes.len() && bytes[from as int] == 0 {
        1 + null_run(bytes, from + 1)
    } else {
        0
    }
}

/// A stretch of null bytes that ends at the end of the bytes or before a
/// byte that is not null is the longest run from its first offset.
pub proof fn lemma_null_run(bytes: Seq<u8>, from: nat, to: nat)
    requires
        from <= to <= bytes.len(),
        all_null(bytes, from as int, to as int),
        to < bytes.len() ==> bytes[to as int] != 0,
    ensures
        null_run(bytes, from) == to - from,
    decreases to - from,
{
    if from < to {
        lemma_null_run(bytes, from + 1, to);
    }
}

/// The candidate ends inside a multi-byte character of which the leading
/// byte and `seen` continuation bytes were consumed and `remaining` more
/// are announced; what precedes that character is text.
pub open spec fn inside_char(c: Candidate, bytes: Seq<u8>, remaining: nat, seen: nat) -> bool {
    let lead_at = c.text_end() - 1 - seen;
    &&& c.start_offset <= lead_at
    &&& continuation_count(bytes[lead_at]) matches Some(n)
    &&& n == seen + remaining
    &&& all_continuation(bytes, lead_at + 1, c.text_end() as int)
    &&& is_text(bytes.subrange(c.start_offset as int, lead_at), (c.char_count - 1) as nat)
}

/// Candidate `r` is in `bytes` as an accepted candidate should be: text of
/// `char_count` characters, long enough, followed by its terminator and by
/// exactly `trailing_nulls` further null bytes.
pub open spec fn accepted_in(r: Candidate, bytes: Seq<u8>, min_len: nat) -> bool {
    &&& r.resume_offset() <= bytes.len()
    &&& r.char_count >= 1
    &&& r.char_count >= min_len
    &&& is_text(candidate_text(r, bytes), r.char_count)
    &&& bytes[r.text_end() as int] == 0
    &&& all_null(bytes, r.text_end() as int + 1, r.resume_offset() as int)
    &&& r.resume_offset() < bytes.len() ==> bytes[r.resume_offset() as int] != 0
}

/// State `s` is what a scan of `bytes` holds after it has consumed the first
/// `position(s)` bytes.
pub open spec fn tracks(s: ScanState, bytes: Seq<u8>, min_len: nat) -> bool {
    let c = s.candidate;
    &&& well_formed(s, min_len)
    &&& position(s) <= bytes.len()
    &&& match s.mode {
        Mode::Building => is_text(candidate_text(c, bytes), c.char_count),
        Mode::InMultibyte { remaining } => {
            ||| inside_char(c, bytes, remaining, 0)
            ||| inside_char(c, bytes, remaining, 1)
            ||| inside_char(c, bytes, remaining, 2)
        },
        Mode::Terminated => {
            &&& is_text(candidate_text(c, bytes), c.char_count)
            &&& bytes[c.text_end() as int] == 0
            &&& all_null(bytes, c.text_end() as int + 1, c.resume_offset() as int)
        },
    }
}

/// The state before the first byte tracks every byte sequence.
pub proof fn lemma_initial_tracks(bytes: Seq<u8>, min_len: nat)
    ensures
        tracks(initial_state(), bytes, min_len),
{
}

/// A multi-byte character whose last continuation byte has just arrived
/// completes the text before it.
proof fn lemma_char_completed(c: Candidate, bytes: Seq<u8>, seen: nat)
    requires
        inside_char(c, bytes, 1, seen),
        c.text_end() < bytes.len(),
        continuation(bytes[c.text_end() as int]),
        c.char_count >= 1,
    ensures
        is_text(candidate_text(c.push_continuation(), bytes), c.char_count),
{
    let lead_at = c.text_end() - 1 - seen;
    let before = bytes.subrange(c.start_offset as int, lead_at);
    let last = bytes.subrange(lead_at, c.text_end() as int + 1);
    lemma_text_push_char(before, last);
    assert(candidate_text(c.push_continuation(), bytes) =~= before + last);
}

/// One transition keeps the state in step with the bytes, and a candidate
/// that it reports is the one that was held, accepted in `bytes`.
pub proof fn lemma_step_tracks(s: ScanState, bytes: Seq<u8>, min_len: nat)
    requires
        tracks(s, bytes, min_len),
        position(s) < bytes.len(),
    ensures
        tracks(step(s, bytes[position(s) as int], min_len).0, bytes, min_len),
        step(s, bytes[position(s) as int], min_len).1 matches Some(r) ==> r == s.candidate
            && accepted_in(r, bytes, min_len),
        step(s, bytes[position(s) as int], min_len).1 is Some <==> s.mode is Terminated
            && bytes[position(s) as int] != 0,
{
    let c = s.candidate;
    let at = position(s) as int;
    let byte = bytes[at];
    let next = step(s, byte, min_len).0;
    match s.mode {
        Mode::Building => {
            if byte != 0 && allowed_ascii(byte) {
                let one = bytes.subrange(at, at + 1);
                lemma_text_push_char(candidate_text(c, bytes), one);
                assert(candidate_text(next.candidate, bytes) =~= candidate_text(c, bytes) + one);
            }
        },
        Mode::InMultibyte { remaining } => {
            if continuation(byte) && remaining <= 1 {
                let seen: nat = if inside_char(c, bytes, remaining, 0) {
                    0
                } else if inside_char(c, bytes, remaining, 1) {
                    1
                } else {
                    2
                };
                lemma_char_completed(c, bytes, seen);
            }
        },
        Mode::Terminated => {},
    }
}

/// At the end of the bytes, a candidate that is reported is the one that
/// was held, accepted in `bytes`.
pub proof fn lemma_end_tracks(s: ScanState, bytes: Seq<u8>, min_len: nat)
    requires
        tracks(s, bytes, min_len),
        position(s) >= bytes.len(),
    ensures
        tracks(step_end(s).0, bytes, min_len),
        step_end(s).1 matches Some(r) ==> r == s.candidate && accepted_in(r, bytes, min_len),
        step_end(s).1 is Some <==> s.mode is Terminated,
{
}

} // verus!
