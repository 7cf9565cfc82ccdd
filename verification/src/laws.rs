//! What holds of every record that a scan reports.

use crate::cursor::Candidate;
use crate::model::{
    bytes_left, initial_state, position, records_from, reported, scan_records, step,
    well_formed, Mode, ScanState,
};
use crate::record::StringRecord;
use crate::runs::{lemma_scan_from, strings_in};
use crate::scan::is_scan_of;
use crate::text::{has_ill_formed_pair, is_text, lemma_text_shape, lemma_text_valid_utf8};
use crate::tracking::{
    accepted_in, candidate_text, lemma_end_tracks, lemma_initial_tracks, lemma_null_run,
    lemma_step_tracks, null_run, tracks,
};
use vstd::prelude::*;
use vstd::utf8::{decode_utf8, valid_utf8};

verus! {

/// Every candidate in `records` is accepted in `bytes` and begins at or
/// after offset `from`, and each begins at or after the offset at which the
/// one before it is left behind.
pub open spec fn accepted_in_order(
    records: Seq<Candidate>,
    bytes: Seq<u8>,
    min_len: nat,
    from: nat,
) -> bool {
    &&& forall|i: int|
        0 <= i < records.len() ==> accepted_in(#[trigger] records[i], bytes, min_len)
            && records[i].start_offset >= from
    &&& forall|i: int, j: int|
        0 <= i < j < records.len() ==> (#[trigger] records[i]).resume_offset()
            <= (#[trigger] records[j]).start_offset
}

/// The candidates reported from a state that tracks the bytes are accepted
/// in them, in order, from the start of the candidate that the state holds.
pub proof fn lemma_records_accepted(s: ScanState, bytes: Seq<u8>, min_len: nat)
    requires
        tracks(s, bytes, min_len),
    ensures
        accepted_in_order(
            records_from(s, bytes, min_len),
            bytes,
            min_len,
            s.candidate.start_offset,
        ),
    decreases bytes_left(s, bytes), (if s.mode is Terminated { 1nat } else { 0nat }),
{
    if position(s) >= bytes.len() {
        lemma_end_tracks(s, bytes, min_len);
    } else {
        lemma_step_tracks(s, bytes, min_len);
        lemma_records_accepted(step(s, bytes[position(s) as int], min_len).0, bytes, min_len);
    }
}

/// A transition keeps a state well formed and never moves the start of the
/// candidate back. It consumes the byte unless it reports a candidate: the
/// position then stays, the candidate reported is the one that was held
/// while null bytes were counted, and the byte was not null.
pub proof fn law_step(s: ScanState, byte: u8, min_len: nat)
    requires
        well_formed(s, min_len),
    ensures
        well_formed(step(s, byte, min_len).0, min_len),
        step(s, byte, min_len).0.candidate.start_offset >= s.candidate.start_offset,
        step(s, byte, min_len).1 is None ==> position(step(s, byte, min_len).0) == position(s)
            + 1,
        step(s, byte, min_len).1 is Some ==> {
            &&& position(step(s, byte, min_len).0) == position(s)
            &&& step(s, byte, min_len).1 == Some(s.candidate)
            &&& step(s, byte, min_len).0 == (ScanState {
                candidate: Candidate::empty_at(position(s)),
                mode: Mode::Building,
            })
            &&& s.mode is Terminated
            &&& byte != 0
        },
{
}

/// Every reported candidate is accepted in the bytes.
proof fn lemma_scan_accepted(bytes: Seq<u8>, min_len: nat, i: int)
    requires
        0 <= i < scan_records(bytes, min_len).len(),
    ensures
        accepted_in(scan_records(bytes, min_len)[i], bytes, min_len),
{
    lemma_initial_tracks(bytes, min_len);
    lemma_records_accepted(initial_state(), bytes, min_len);
}

/// Every reported candidate counts at least `min_len` characters, and at
/// least one.
pub proof fn law_min_length(bytes: Seq<u8>, min_len: nat, i: int)
    requires
        0 <= i < scan_records(bytes, min_len).len(),
    ensures
        scan_records(bytes, min_len)[i].char_count >= min_len,
        scan_records(bytes, min_len)[i].char_count >= 1,
{
    lemma_scan_accepted(bytes, min_len, i);
}

/// Every reported candidate lies within the bytes, spans at least one byte
/// and at most four for each of its characters, and holds no null byte.
/// Its bytes are text of `char_count` characters. They are valid UTF-8
/// exactly where no leading byte in them is followed by a byte that makes
/// the pair ill-formed, and then they encode `char_count` characters.
pub proof fn law_text(bytes: Seq<u8>, min_len: nat, i: int)
    requires
        0 <= i < scan_records(bytes, min_len).len(),
    ensures
        ({
            let r = scan_records(bytes, min_len)[i];
            let text = candidate_text(r, bytes);
            &&& r.text_end() < bytes.len()
            &&& text.len() == r.byte_length
            &&& r.char_count <= r.byte_length <= 4 * r.char_count
            &&& is_text(text, r.char_count)
            &&& forall|j: int| r.start_offset <= j < r.text_end() ==> bytes[j] != 0
            &&& valid_utf8(text) <==> !has_ill_formed_pair(text)
            &&& valid_utf8(text) ==> decode_utf8(text).len() == r.char_count
        }),
{
    let r = scan_records(bytes, min_len)[i];
    let text = candidate_text(r, bytes);
    lemma_scan_accepted(bytes, min_len, i);
    lemma_text_shape(text);
    lemma_text_valid_utf8(text);
    assert forall|j: int| r.start_offset <= j < r.text_end() implies bytes[j] != 0 by {
        assert(bytes[j] == text[j - r.start_offset]);
    }
}

/// Every reported candidate is followed by its terminator, a null byte, and
/// `trailing_nulls` is the length of the longest run of null bytes that
/// begins right after the terminator. The longest run that begins at the
/// terminator itself is one byte longer.
pub proof fn law_trailing_nulls(bytes: Seq<u8>, min_len: nat, i: int)
    requires
        0 <= i < scan_records(bytes, min_len).len(),
    ensures
        ({
            let r = scan_records(bytes, min_len)[i];
            &&& r.resume_offset() <= bytes.len()
            &&& bytes[r.text_end() as int] == 0
            &&& r.trailing_nulls == null_run(bytes, r.text_end() + 1)
            &&& r.trailing_nulls + 1 == null_run(bytes, r.text_end())
        }),
{
    let r = scan_records(bytes, min_len)[i];
    lemma_scan_accepted(bytes, min_len, i);
    lemma_null_run(bytes, r.text_end() + 1, r.resume_offset());
}

/// The reported candidates come in the order of their offsets, and none
/// begins before the one reported before it, its terminator and its
/// trailing null bytes are left behind: no byte belongs to two of them.
pub proof fn law_records_disjoint(bytes: Seq<u8>, min_len: nat, i: int, j: int)
    requires
        0 <= i < j < scan_records(bytes, min_len).len(),
    ensures
        scan_records(bytes, min_len)[i].resume_offset() <= scan_records(
            bytes,
            min_len,
        )[j].start_offset,
{
    lemma_initial_tracks(bytes, min_len);
    lemma_records_accepted(initial_state(), bytes, min_len);
}

/// In the records of a scan, the text of every candidate that holds no
/// ill-formed pair is the characters that its bytes encode, `char_count` of
/// them.
pub proof fn law_text_decoded(records: Seq<StringRecord>, bytes: Seq<u8>, min_len: nat, i: int)
    requires
        is_scan_of(records, bytes, min_len),
        0 <= i < records.len(),
        !has_ill_formed_pair(candidate_text(records[i]@.span, bytes)),
    ensures
        records[i]@.text == decode_utf8(candidate_text(records[i]@.span, bytes)),
        records[i]@.text.len() == records[i]@.span.char_count,
{
    law_text(bytes, min_len, i);
}

/// The candidates that a scan reports are the ones that are found in the
/// bytes run by run.
pub proof fn law_scan_finds_strings(bytes: Seq<u8>, min_len: nat)
    ensures
        scan_records(bytes, min_len) == strings_in(bytes, min_len),
{
    lemma_scan_from(bytes, 0, min_len);
}

/// Two scans of the same bytes with the same minimum length report the
/// same records in the same order.
pub proof fn law_deterministic(
    first: Seq<StringRecord>,
    second: Seq<StringRecord>,
    bytes: Seq<u8>,
    min_len: nat,
)
    requires
        is_scan_of(first, bytes, min_len),
        is_scan_of(second, bytes, min_len),
    ensures
        first.len() == second.len(),
        forall|i: int| 0 <= i < first.len() ==> (#[trigger] first[i])@ == second[i]@,
{
}

} // verus!
