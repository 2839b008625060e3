//! Counts of newlines, words, characters, bytes and the longest line of a
//! byte stream, in one pass, and the aligned row that shows them.

pub mod counter;
pub mod options;
pub mod report;
pub mod stream;
pub mod utf8;
pub mod utf8buf;
