//! What the five counts of a byte sequence are.
//!
//! Every count is defined on the sequence of bytes read so far, so that the
//! counts of a stream are those of the sequence it delivers.

use vstd::prelude::*;

verus! {

/// The byte that ends a line.
pub open spec fn is_newline(byte: u8) -> bool {
    byte == 0x0A
}

/// White space among the code points U+0000 to U+00FF, as which a single byte
/// is read: tab, line feed, vertical tab, form feed, carriage return, space,
/// next line (U+0085) and no-break space (U+00A0).
pub open spec fn is_whitespace(byte: u8) -> bool {
    (0x09 <= byte <= 0x0D) || byte == 0x20 || byte == 0x85 || byte == 0xA0
}

/// A continuation byte of UTF-8: its two top bits are `10`.
pub open spec fn is_continuation(byte: u8) -> bool {
    byte & 0xC0 == 0x80
}

/// A word starts at `i`: the byte there is no white space, and it is the first
/// byte or follows white space.
pub open spec fn starts_word(s: Seq<u8>, i: int) -> bool {
    !is_whitespace(s[i]) && (i == 0 || is_whitespace(s[i - 1]))
}

/// Number of newline bytes in `s`.
pub open spec fn newlines(s: Seq<u8>) -> nat
    decreases s.len(),
{
    if s.len() == 0 {
        0
    } else {
        newlines(s.drop_last()) + if is_newline(s.last()) { 1nat } else { 0nat }
    }
}

/// Number of positions of `s` at which a word starts.
pub open spec fn words(s: Seq<u8>) -> nat
    decreases s.len(),
{
    if s.len() == 0 {
        0
    } else {
        words(s.drop_last()) + if starts_word(s, s.len() - 1) { 1nat } else { 0nat }
    }
}

/// Number of bytes of `s` that are not continuation bytes: one for each
/// character of well-formed UTF-8.
pub open spec fn chars(s: Seq<u8>) -> nat
    decreases s.len(),
{
    if s.len() == 0 {
        0
    } else {
        chars(s.drop_last()) + if is_continuation(s.last()) { 0nat } else { 1nat }
    }
}

/// Length in bytes of the line that `s` ends in: the bytes after its last
/// newline.
pub open spec fn line_tail(s: Seq<u8>) -> nat
    decreases s.len(),
{
    if s.len() == 0 || is_newline(s.last()) {
        0
    } else {
        line_tail(s.drop_last()) + 1
    }
}

/// Length in bytes of the longest line of `s`, the unfinished last one
/// included.
pub open spec fn max_line(s: Seq<u8>) -> nat
    decreases s.len(),
{
    if s.len() == 0 {
        0
    } else if max_line(s.drop_last()) >= line_tail(s) {
        max_line(s.drop_last())
    } else {
        line_tail(s)
    }
}

/// The five counts as mathematical integers.
pub struct Tally {
    pub newlines: nat,
    pub words: nat,
    pub bytes: nat,
    pub chars: nat,
    pub max_line: nat,
}

impl Tally {
    /// The counts of the empty input.
    pub open spec fn zero() -> Tally {
        Tally { newlines: 0, words: 0, bytes: 0, chars: 0, max_line: 0 }
    }

    /// Field by field, the sum of two tallies.
    pub open spec fn plus(self, other: Tally) -> Tally {
        Tally {
            newlines: self.newlines + other.newlines,
            words: self.words + other.words,
            bytes: self.bytes + other.bytes,
            chars: self.chars + other.chars,
            max_line: self.max_line + other.max_line,
        }
    }

    /// Every field can be held in a `u64`.
    pub open spec fn fits(self) -> bool {
        &&& self.newlines <= u64::MAX
        &&& self.words <= u64::MAX
        &&& self.bytes <= u64::MAX
        &&& self.chars <= u64::MAX
        &&& self.max_line <= u64::MAX
    }
}

/// The counts of the byte sequence `s`.
pub open spec fn tally(s: Seq<u8>) -> Tally {
    Tally {
        newlines: newlines(s),
        words: words(s),
        bytes: s.len(),
        chars: chars(s),
        max_line: max_line(s),
    }
}

/// How each count changes when one more byte is read.
pub proof fn lemma_push(s: Seq<u8>, byte: u8)
    ensures
        newlines(s.push(byte)) == newlines(s) + if is_newline(byte) { 1nat } else { 0nat },
        words(s.push(byte)) == words(s) + if !is_whitespace(byte) && (s.len() == 0
            || is_whitespace(s.last())) { 1nat } else { 0nat },
        chars(s.push(byte)) == chars(s) + if is_continuation(byte) { 0nat } else { 1nat },
        line_tail(s.push(byte)) == if is_newline(byte) { 0nat } else { line_tail(s) + 1 },
        max_line(s.push(byte)) == if max_line(s) >= line_tail(s.push(byte)) {
            max_line(s)
        } else {
            line_tail(s.push(byte))
        },
{
    assert(s.push(byte).drop_last() =~= s);
}

/// No count exceeds the number of bytes.
pub proof fn lemma_bounded(s: Seq<u8>)
    ensures
        newlines(s) <= s.len(),
        words(s) <= s.len(),
        chars(s) <= s.len(),
        line_tail(s) <= s.len(),
        max_line(s) <= s.len(),
    decreases s.len(),
{
    if s.len() > 0 {
        lemma_bounded(s.drop_last());
    }
}

} // verus!
