//! Extraction of the text strings that lie, each ended by a null byte, in
//! arbitrary binary data.
//!
//! A string is a run of allowed one-byte characters and of multi-byte
//! characters in the shape of UTF-8. It is reported, with its offset, its
//! length in bytes and in characters, and the number of null bytes that
//! follow its terminator, where it has at least a chosen number of
//! characters.
//!
//! - [`classify`] tells the kinds of bytes apart.
//! - [`cursor`] holds the accounting of the candidate under construction.
//! - [`scanner`] is the scanner itself: it takes one byte at a time, so that
//!   a source of any size can be scanned in constant memory.
//! - [`record`] is what is reported for a string.
//! - [`scan`] scans a byte sequence that is held in memory.
//! - [`model`] states what the scanner does as a transition system,
//!   [`runs`] states what it finds run by run, and [`text`] says what counts
//!   as text.
//! - [`tracking`] relates the state of a scan to the bytes behind it, and
//!   [`laws`] states what holds of every string that is reported.

pub mod classify;
pub mod cursor;
pub mod laws;
pub mod model;
pub mod record;
pub mod runs;
pub mod scan;
pub mod scanner;
pub mod text;
pub mod tracking;
