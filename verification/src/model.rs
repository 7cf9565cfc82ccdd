//! The scanner as a transition system over mathematical values, and the list
//! of candidates that a scan of a whole byte sequence reports.

use crate::classify::{allowed_ascii, continuation, continuation_count};
use crate::cursor::Candidate;
use vstd::prelude::*;

verus! {

/// What the scanner is in the middle of.
pub enum Mode {
    /// Accumulating characters.
    Building,
    /// Inside a multi-byte character that still lacks `remaining` bytes.
    InMultibyte { remaining: nat },
    /// Past the terminator of an accepted candidate, counting null bytes.
    Terminated,
}

/// The whole state of a scan between two bytes.
pub struct ScanState {
    pub candidate: Candidate,
    pub mode: Mode,
}

/// What holds of every state that a scan reaches, whatever the bytes were.
pub open spec fn well_formed(s: ScanState, min_len: nat) -> bool {
    let c = s.candidate;
    &&& c.char_count <= c.byte_length
    &&& c.char_count == 0 <==> c.byte_length == 0
    &&& match s.mode {
        Mode::Building => c.trailing_nulls == 0,
        Mode::InMultibyte { remaining } => {
            &&& c.trailing_nulls == 0
            &&& c.char_count >= 1
            &&& 1 <= remaining <= 3
        },
        Mode::Terminated => c.char_count >= 1 && c.char_count >= min_len,
    }
}

/// The state before the first byte.
pub open spec fn initial_state() -> ScanState {
    ScanState { candidate: Candidate::empty_at(0), mode: Mode::Building }
}

/// The number of source bytes that the state accounts for, which is the
/// offset of the byte that it expects next.
pub open spec fn position(s: ScanState) -> nat {
    match s.mode {
        Mode::Terminated => s.candidate.resume_offset(),
        _ => s.candidate.text_end(),
    }
}

/// What a null byte does to a candidate under construction: slack before
/// the first character, the terminator of a candidate that is long enough,
/// or the end of one that is too short.
pub open spec fn on_terminator(c: Candidate, min_len: nat) -> ScanState {
    if c.char_count == 0 {
        ScanState { candidate: c.skip_slack(), mode: Mode::Building }
    } else if c.char_count >= min_len {
        ScanState { candidate: c, mode: Mode::Terminated }
    } else {
        ScanState { candidate: c.abandon(), mode: Mode::Building }
    }
}

/// The transition on `byte` while characters are accumulated.
pub open spec fn step_building(c: Candidate, byte: u8, min_len: nat) -> ScanState {
    if byte == 0 {
        on_terminator(c, min_len)
    } else if allowed_ascii(byte) {
        ScanState { candidate: c.push_char(), mode: Mode::Building }
    } else {
        match continuation_count(byte) {
            Some(n) => ScanState {
                candidate: c.push_char(),
                mode: Mode::InMultibyte { remaining: n as nat },
            },
            None => ScanState { candidate: c.abandon(), mode: Mode::Building },
        }
    }
}

/// The transition on `byte` inside a multi-byte character.
pub open spec fn step_multibyte(c: Candidate, remaining: nat, byte: u8) -> ScanState {
    if continuation(byte) {
        ScanState {
            candidate: c.push_continuation(),
            mode: if remaining <= 1 {
                Mode::Building
            } else {
                Mode::InMultibyte { remaining: (remaining - 1) as nat }
            },
        }
    } else {
        ScanState { candidate: c.abandon(), mode: Mode::Building }
    }
}

/// The transition on `byte` after the terminator of an accepted candidate.
/// A null byte is counted. Any other byte ends the count: the candidate is
/// reported and the byte is left for the candidate that follows.
pub open spec fn step_terminated(c: Candidate, byte: u8) -> (ScanState, Option<Candidate>) {
    if byte == 0 {
        (ScanState { candidate: c.push_null(), mode: Mode::Terminated }, None)
    } else {
        (ScanState { candidate: c.reset(), mode: Mode::Building }, Some(c))
    }
}

/// One transition: the next state and the candidate that is reported, if
/// any. The byte handed in is the one at offset `position(s)`.
pub open spec fn step(s: ScanState, byte: u8, min_len: nat) -> (ScanState, Option<Candidate>) {
    match s.mode {
        Mode::Building => (step_building(s.candidate, byte, min_len), None),
        Mode::InMultibyte { remaining } => (step_multibyte(s.candidate, remaining, byte), None),
        Mode::Terminated => step_terminated(s.candidate, byte),
    }
}

/// What the end of the source does: a candidate whose null bytes were being
/// counted is reported, any other is discarded. Either way an empty
/// candidate is left at the offset that was reached.
pub open spec fn step_end(s: ScanState) -> (ScanState, Option<Candidate>) {
    (
        ScanState { candidate: Candidate::empty_at(position(s)), mode: Mode::Building },
        match s.mode {
            Mode::Terminated => Some(s.candidate),
            _ => None,
        },
    )
}

/// An optional candidate as a list of at most one.
pub open spec fn reported(out: Option<Candidate>) -> Seq<Candidate> {
    match out {
        Some(c) => seq![c],
        None => Seq::empty(),
    }
}

/// The bytes that the scan from `s` still has to look at.
pub open spec fn bytes_left(s: ScanState, bytes: Seq<u8>) -> nat {
    if position(s) < bytes.len() {
        (bytes.len() - position(s)) as nat
    } else {
        0
    }
}

/// The candidates reported when the scan goes on from state `s` to the end
/// of `bytes`, in the order in which they are reported.
pub open spec fn records_from(s: ScanState, bytes: Seq<u8>, min_len: nat) -> Seq<Candidate>
    decreases bytes_left(s, bytes), (if s.mode is Terminated { 1nat } else { 0nat }),
{
    if position(s) >= bytes.len() {
        reported(step_end(s).1)
    } else {
        let (next, out) = step(s, bytes[position(s) as int], min_len);
        reported(out) + records_from(next, bytes, min_len)
    }
}

/// The candidates that a scan of `bytes` reports.
pub open spec fn scan_records(bytes: Seq<u8>, min_len: nat) -> Seq<Candidate> {
    records_from(initial_state(), bytes, min_len)
}

} // verus!
