//! The accounting kept for the candidate string that is being built.

use vstd::prelude::*;

verus! {

/// The mathematical value of a cursor: where the candidate starts, how many
/// confirmed bytes and characters it holds, and how many null bytes were
/// counted after its terminator.
pub struct Candidate {
    pub start_offset: nat,
    pub byte_length: nat,
    pub char_count: nat,
    pub trailing_nulls: nat,
}

impl Candidate {
    /// The empty candidate that begins at `start_offset`.
    pub open spec fn empty_at(start_offset: nat) -> Candidate {
        Candidate { start_offset, byte_length: 0, char_count: 0, trailing_nulls: 0 }
    }

    /// The offset just past the last confirmed byte of the candidate.
    pub open spec fn text_end(self) -> nat {
        self.start_offset + self.byte_length
    }

    /// The offset at which the next candidate begins once this one, its
    /// terminator or offending byte, and its counted null bytes are left
    /// behind.
    pub open spec fn resume_offset(self) -> nat {
        self.start_offset + self.byte_length + self.trailing_nulls + 1
    }

    /// The fresh candidate that follows this one once it has been accepted.
    pub open spec fn reset(self) -> Candidate {
        Candidate::empty_at(self.resume_offset())
    }

    /// The fresh candidate that follows this one once a byte has ended it
    /// without a report: it begins right after that byte.
    pub open spec fn abandon(self) -> Candidate {
        Candidate::empty_at(self.text_end() + 1)
    }

    /// One more one-byte character.
    pub open spec fn push_char(self) -> Candidate {
        Candidate { byte_length: self.byte_length + 1, char_count: self.char_count + 1, ..self }
    }

    /// One more byte of the character counted last.
    pub open spec fn push_continuation(self) -> Candidate {
        Candidate { byte_length: self.byte_length + 1, ..self }
    }

    /// One more null byte after the terminator.
    pub open spec fn push_null(self) -> Candidate {
        Candidate { trailing_nulls: self.trailing_nulls + 1, ..self }
    }

    /// One more null byte before any character: the start moves on.
    pub open spec fn skip_slack(self) -> Candidate {
        Candidate { start_offset: self.start_offset + 1, ..self }
    }
}

/// Tracks one in-progress candidate string.
#[derive(Clone, Copy, Debug, PartialEq, Eq, Structural)]
pub struct ScanCursor {
    /// Byte offset in the source where the candidate begins.
    pub start_offset: u64,
    /// Bytes consumed so far that belong to the candidate.
    pub byte_length: u64,
    /// Characters counted so far; a multi-byte character counts once.
    pub char_count: u64,
    /// Null bytes counted right after the candidate's terminator.
    pub trailing_nulls: u64,
}

impl View for ScanCursor {
    type V = Candidate;

    open spec fn view(&self) -> Candidate {
        Candidate {
            start_offset: self.start_offset as nat,
            byte_length: self.byte_length as nat,
            char_count: self.char_count as nat,
            trailing_nulls: self.trailing_nulls as nat,
        }
    }
}

impl ScanCursor {
    /// A cursor with an empty candidate at `start_offset`.
    pub fn new(start_offset: u64) -> (cursor: ScanCursor)
        ensures
            cursor@ == Candidate::empty_at(start_offset as nat),
    {
        ScanCursor { start_offset, byte_length: 0, char_count: 0, trailing_nulls: 0 }
    }

    /// Whether the candidate holds no byte, character or counted null.
    pub fn is_reset(&self) -> (reset: bool)
        ensures
            reset == (self@ == Candidate::empty_at(self.start_offset as nat)),
    {
        self.byte_length == 0 && self.char_count == 0 && self.trailing_nulls == 0
    }

    /// The offset at which scanning resumes after this candidate.
    pub fn resume_offset(&self) -> (offset: u64)
        requires
            self@.resume_offset() <= u64::MAX,
        ensures
            offset == self@.resume_offset(),
    {
        self.start_offset + self.byte_length + self.trailing_nulls + 1
    }
}

/// Discards the candidate: the start moves past its bytes, its counted null
/// bytes and the one byte that ended it, and every count returns to zero.
pub fn cursor_reset_string(cursor: ScanCursor) -> (fresh: ScanCursor)
    requires
        cursor@.resume_offset() <= u64::MAX,
    ensures
        fresh@ == cursor@.reset(),
{
    ScanCursor::new(cursor.resume_offset())
}

} // verus!
