//! A scan of a byte sequence that is held in memory.

use crate::cursor::Candidate;
use crate::model::{bytes_left, records_from, scan_records};
use crate::record::{record_of, RecordModel, StringRecord};
use crate::scanner::Scanner;
use crate::tracking::{
    candidate_text, lemma_end_tracks, lemma_initial_tracks, lemma_step_tracks, tracks,
};
use vstd::prelude::*;
use vstd::slice::slice_subrange;
use vstd::utf8::{decode_utf8, valid_utf8};

verus! {

/// `record` is the record of candidate `c` of `bytes`: it has the
/// candidate's accounting, and its text is the candidate's bytes decoded,
/// which are the characters that they encode where they are valid UTF-8.
pub open spec fn is_record_of(record: RecordModel, c: Candidate, bytes: Seq<u8>) -> bool {
    let text_bytes = candidate_text(c, bytes);
    &&& record == record_of(c, text_bytes)
    &&& valid_utf8(text_bytes) ==> record.text == decode_utf8(text_bytes)
}

/// `records` is what a scan of `bytes` reports: the candidates of
/// `scan_records` in their order, each with its bytes decoded.
pub open spec fn is_scan_of(records: Seq<StringRecord>, bytes: Seq<u8>, min_len: nat) -> bool {
    &&& records.len() == scan_records(bytes, min_len).len()
    &&& forall|i: int|
        0 <= i < records.len() ==> is_record_of(
            (#[trigger] records[i])@,
            scan_records(bytes, min_len)[i],
            bytes,
        )
}

/// Scans `bytes` from its first byte to its last and returns a record for
/// every candidate of at least `min_len` characters that a null byte
/// terminates.
pub fn scan_bytes(bytes: &[u8], min_len: u64) -> (records: Vec<StringRecord>)
    ensures
        is_scan_of(records@, bytes@, min_len as nat),
{
    let mut scanner = Scanner::new(min_len);
    let mut records: Vec<StringRecord> = Vec::new();
    let ghost done: Seq<Candidate> = Seq::empty();
    proof {
        lemma_initial_tracks(bytes@, min_len as nat);
    }
    loop
        invariant
            scanner.wf(),
            scanner.spec_min_len() == min_len,
            tracks(scanner@, bytes@, min_len as nat),
            done + records_from(scanner@, bytes@, min_len as nat) == scan_records(
                bytes@,
                min_len as nat,
            ),
            records@.len() == done.len(),
            forall|i: int|
                0 <= i < done.len() ==> is_record_of((#[trigger] records@[i])@, done[i], bytes@),
        ensures
            is_scan_of(records@, bytes@, min_len as nat),
        decreases
            bytes_left(scanner@, bytes@),
            (if scanner@.mode is Terminated { 1nat } else { 0nat }),
    {
        let at = scanner.position();
        let at_end = at >= bytes.len() as u64;
        let emitted = if at_end {
            proof {
                lemma_end_tracks(scanner@, bytes@, min_len as nat);
            }
            scanner.finish()
        } else {
            proof {
                lemma_step_tracks(scanner@, bytes@, min_len as nat);
            }
            scanner.process_byte(bytes[at as usize])
        };
        if let Some(cursor) = emitted {
            let text_bytes = slice_subrange(
                bytes,
                cursor.start_offset as usize,
                (cursor.start_offset + cursor.byte_length) as usize,
            );
            records.push(StringRecord::new(cursor, text_bytes));
            proof {
                done = done.push(cursor@);
            }
        }
        if at_end {
            break ;
        }
    }
    records
}

} // verus!
