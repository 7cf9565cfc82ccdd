//! The scanner: it is fed the bytes of a source one at a time and reports
//! each accepted candidate.

use crate::classify::{is_continuation_byte, is_non_control_ascii, try_get_utf8_multibyte_len};
use crate::cursor::{cursor_reset_string, Candidate, ScanCursor};
use crate::model::{
    initial_state, on_terminator, position, step, step_end, step_multibyte, step_terminated,
    well_formed, Mode, ScanState,
};
use vstd::prelude::*;

verus! {

/// The minimum character count that is used where none is chosen.
pub const DEFAULT_MIN_LEN: u64 = 3;

/// What the scanner is in the middle of.
#[derive(Clone, Copy, Debug, PartialEq, Eq, Structural)]
pub enum Phase {
    /// Accumulating characters.
    Building,
    /// Inside a multi-byte character that still lacks `remaining` bytes.
    InMultibyte { remaining: u8 },
    /// Past the terminator of an accepted candidate, counting null bytes.
    Terminated,
}

impl View for Phase {
    type V = Mode;

    open spec fn view(&self) -> Mode {
        match *self {
            Phase::Building => Mode::Building,
            Phase::InMultibyte { remaining } => Mode::InMultibyte { remaining: remaining as nat },
            Phase::Terminated => Mode::Terminated,
        }
    }
}

/// The mathematical value of an optional cursor.
pub open spec fn candidate_of(cursor: Option<ScanCursor>) -> Option<Candidate> {
    match cursor {
        Some(c) => Some(c@),
        None => None,
    }
}

/// A scan in progress. The bytes of the source are handed to `process_byte`
/// in order, each at the offset that `position` gives, and the end of the
/// source is signalled with `finish`.
#[derive(Clone, Copy, Debug, PartialEq, Eq)]
pub struct Scanner {
    cursor: ScanCursor,
    phase: Phase,
    min_len: u64,
}

impl View for Scanner {
    type V = ScanState;

    closed spec fn view(&self) -> ScanState {
        ScanState { candidate: self.cursor@, mode: self.phase@ }
    }
}

impl Scanner {
    /// The minimum character count of a reported candidate.
    pub closed spec fn spec_min_len(&self) -> nat {
        self.min_len as nat
    }

    /// The state is one that a scan can reach and its offsets fit in 64 bits.
    pub open spec fn wf(&self) -> bool {
        &&& well_formed(self@, self.spec_min_len())
        &&& position(self@) <= u64::MAX
    }

    /// A scanner at offset 0 that reports candidates of at least `min_len`
    /// characters.
    pub fn new(min_len: u64) -> (scanner: Scanner)
        ensures
            scanner.wf(),
            scanner@ == initial_state(),
            scanner.spec_min_len() == min_len,
    {
        Scanner { cursor: ScanCursor::new(0), phase: Phase::Building, min_len }
    }

    /// The minimum character count of a reported candidate.
    pub fn min_len(&self) -> (min_len: u64)
        ensures
            min_len == self.spec_min_len(),
    {
        self.min_len
    }

    /// The accounting of the candidate under construction.
    pub fn cursor(&self) -> (cursor: ScanCursor)
        ensures
            cursor@ == self@.candidate,
    {
        self.cursor
    }

    /// What the scanner is in the middle of.
    pub fn phase(&self) -> (phase: Phase)
        ensures
            phase@ == self@.mode,
    {
        self.phase
    }

    /// The offset of the byte that the scanner expects next.
    pub fn position(&self) -> (offset: u64)
        requires
            self.wf(),
        ensures
            offset == position(self@),
    {
        match self.phase {
            Phase::Terminated => self.cursor.resume_offset(),
            _ => self.cursor.start_offset + self.cursor.byte_length,
        }
    }

    /// Takes the byte at offset `position` and returns the candidate that
    /// it completes, if any. After a report the same byte is expected
    /// again: it belongs to the candidate that follows.
    pub fn process_byte(&mut self, byte: u8) -> (emitted: Option<ScanCursor>)
        requires
            old(self).wf(),
            position(old(self)@) < u64::MAX,
        ensures
            final(self).wf(),
            final(self).spec_min_len() == old(self).spec_min_len(),
            final(self)@ == step(old(self)@, byte, old(self).spec_min_len()).0,
            candidate_of(emitted) == step(old(self)@, byte, old(self).spec_min_len()).1,
    {
        match self.phase {
            Phase::Building => {
                if byte == 0x00 {
                    self.end_string();
                } else if is_non_control_ascii(byte) {
                    self.cursor.byte_length += 1;
                    self.cursor.char_count += 1;
                } else {
                    match try_get_utf8_multibyte_len(byte) {
                        None => {
                            self.cursor = cursor_reset_string(self.cursor);
                        },
                        Some(cont_bytes) => {
                            self.cursor.byte_length += 1;
                            self.cursor.char_count += 1;
                            self.phase = Phase::InMultibyte { remaining: cont_bytes };
                        },
                    }
                }
                None
            },
            Phase::InMultibyte { remaining } => {
                self.process_multibyte_char(byte, remaining);
                None
            },
            Phase::Terminated => self.consume_succeeding_nulls(byte),
        }
    }

    /// Signals the end of the source and returns the candidate whose null
    /// bytes were being counted, if there is one. A candidate without a
    /// terminator is discarded. The scanner is left with an empty candidate
    /// at the offset that it had reached.
    pub fn finish(&mut self) -> (emitted: Option<ScanCursor>)
        requires
            old(self).wf(),
        ensures
            final(self).wf(),
            final(self).spec_min_len() == old(self).spec_min_len(),
            final(self)@ == step_end(old(self)@).0,
            candidate_of(emitted) == step_end(old(self)@).1,
    {
        let emitted = match self.phase {
            Phase::Terminated => Some(self.cursor),
            _ => None,
        };
        self.cursor = ScanCursor::new(self.position());
        self.phase = Phase::Building;
        emitted
    }

    /// Handles a null byte met while characters are accumulated.
    fn end_string(&mut self)
        requires
            old(self).wf(),
            old(self)@.mode is Building,
            position(old(self)@) < u64::MAX,
        ensures
            final(self).wf(),
            final(self).spec_min_len() == old(self).spec_min_len(),
            final(self)@ == on_terminator(old(self)@.candidate, old(self).spec_min_len()),
    {
        if self.cursor.char_count == 0 {
            self.cursor.start_offset += 1;
        } else if self.cursor.char_count >= self.min_len {
            self.phase = Phase::Terminated;
        } else {
            self.cursor = cursor_reset_string(self.cursor);
        }
    }

    /// Handles a byte met inside a multi-byte character that still lacks
    /// `remaining` bytes.
    fn process_multibyte_char(&mut self, byte: u8, remaining: u8)
        requires
            old(self).wf(),
            old(self)@.mode == (Mode::InMultibyte { remaining: remaining as nat }),
            position(old(self)@) < u64::MAX,
        ensures
            final(self).wf(),
            final(self).spec_min_len() == old(self).spec_min_len(),
            final(self)@ == step_multibyte(old(self)@.candidate, remaining as nat, byte),
    {
        if !is_continuation_byte(byte) {
            self.cursor = cursor_reset_string(self.cursor);
            self.phase = Phase::Building;
        } else {
            self.cursor.byte_length += 1;
            if remaining <= 1 {
                self.phase = Phase::Building;
            } else {
                self.phase = Phase::InMultibyte { remaining: remaining - 1 };
            }
        }
    }

    /// Handles a byte met after the terminator of an accepted candidate.
    fn consume_succeeding_nulls(&mut self, byte: u8) -> (emitted: Option<ScanCursor>)
        requires
            old(self).wf(),
            old(self)@.mode is Terminated,
            position(old(self)@) < u64::MAX,
        ensures
            final(self).wf(),
            final(self).spec_min_len() == old(self).spec_min_len(),
            final(self)@ == step_terminated(old(self)@.candidate, byte).0,
            candidate_of(emitted) == step_terminated(old(self)@.candidate, byte).1,
    {
        if byte == 0x00 {
            self.cursor.trailing_nulls += 1;
            None
        } else {
            let accepted = self.cursor;
            self.cursor = cursor_reset_string(self.cursor);
            self.phase = Phase::Building;
            Some(accepted)
        }
    }
}

} // verus!
