//! The record that is reported for an accepted candidate.

use crate::cursor::{Candidate, ScanCursor};
use vstd::prelude::*;
use vstd::utf8::{decode_utf8, valid_utf8};

verus! {

/// The characters that `String::from_utf8_lossy` of the standard library
/// gives for `bytes`.
pub uninterp spec fn lossy_utf8(bytes: Seq<u8>) -> Seq<char>;

/// Decodes `bytes` with `String::from_utf8_lossy` of the standard library.
/// Trusted: the result is a function of the bytes alone, and where the bytes
/// are valid UTF-8 it is the characters that they encode. What the function
/// puts in place of an invalid sequence is not stated.
#[verifier::external_body]
fn decode_lossy(bytes: &[u8]) -> (text: String)
    ensures
        text@ == lossy_utf8(bytes@),
        valid_utf8(bytes@) ==> text@ == decode_utf8(bytes@),
{
    String::from_utf8_lossy(bytes).into_owned()
}

/// The mathematical value of a record.
pub struct RecordModel {
    pub span: Candidate,
    pub text: Seq<char>,
}

/// The record of a candidate whose bytes are `text_bytes`.
pub open spec fn record_of(span: Candidate, text_bytes: Seq<u8>) -> RecordModel {
    RecordModel { span, text: lossy_utf8(text_bytes) }
}

/// One reported string: where it lies in the source and what it says.
#[derive(Clone, Debug, PartialEq, Eq)]
pub struct StringRecord {
    /// Byte offset of the first byte of the string.
    pub start_offset: u64,
    /// Length of the string in bytes, without its terminator.
    pub byte_length: u64,
    /// Length of the string in characters.
    pub char_count: u64,
    /// Null bytes that follow the terminator.
    pub trailing_nulls: u64,
    /// The bytes of the string, decoded.
    pub text: String,
}

impl View for StringRecord {
    type V = RecordModel;

    open spec fn view(&self) -> RecordModel {
        RecordModel {
            span: Candidate {
                start_offset: self.start_offset as nat,
                byte_length: self.byte_length as nat,
                char_count: self.char_count as nat,
                trailing_nulls: self.trailing_nulls as nat,
            },
            text: self.text@,
        }
    }
}

impl StringRecord {
    /// The record of the accepted candidate `cursor`, whose bytes in the
    /// source are `text_bytes`.
    pub fn new(cursor: ScanCursor, text_bytes: &[u8]) -> (record: StringRecord)
        ensures
            record@ == record_of(cursor@, text_bytes@),
            valid_utf8(text_bytes@) ==> record@.text == decode_utf8(text_bytes@),
    {
        StringRecord {
            start_offset: cursor.start_offset,
            byte_length: cursor.byte_length,
            char_count: cursor.char_count,
            trailing_nulls: cursor.trailing_nulls,
            text: decode_lossy(text_bytes),
        }
    }

    /// The accounting of the candidate that the record was made from.
    pub fn cursor(&self) -> (cursor: ScanCursor)
        ensures
            cursor@ == self@.span,
    {
        ScanCursor {
            start_offset: self.start_offset,
            byte_length: self.byte_length,
            char_count: self.char_count,
            trailing_nulls: self.trailing_nulls,
        }
    }
}

} // verus!
