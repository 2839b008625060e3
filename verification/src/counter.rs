//! The counter: one pass over a stream of bytes.

pub mod display;
pub mod laws;
pub mod model;

use vstd::prelude::*;
use vstd::std_specs::iter::IteratorSpec;
use crate::counter::display::Display;
use crate::counter::model::{
    is_whitespace, lemma_bounded, lemma_push, line_tail, tally, Tally,
};
use crate::options::Options;
use crate::stream::{all_ok, delivered, fails_at, lemma_fails_once};

verus! {

/// The counts of one input, or the total of several.
#[derive(Debug, Clone, Copy, PartialEq, Eq)]
pub struct Count {
    pub newlines: u64,
    pub words: u64,
    pub bytes: u64,
    pub chars: u64,
    pub max_line: u64,
}

impl View for Count {
    type V = Tally;

    open spec fn view(&self) -> Tally {
        Tally {
            newlines: self.newlines as nat,
            words: self.words as nat,
            bytes: self.bytes as nat,
            chars: self.chars as nat,
            max_line: self.max_line as nat,
        }
    }
}

/// Whether the byte read last belongs to a word.
enum State {
    Whitespace,
    Word,
}

/// Tells white space from the rest, a byte being read as the code point of
/// its value.
fn whitespace(byte: u8) -> (r: bool)
    ensures
        r == is_whitespace(byte),
{
    (0x09 <= byte && byte <= 0x0D) || byte == 0x20 || byte == 0x85 || byte == 0xA0
}

impl Count {
    /// The counts of the empty input.
    pub fn new() -> (r: Count)
        ensures
            r@ == Tally::zero(),
    {
        Count { newlines: 0, words: 0, bytes: 0, chars: 0, max_line: 0 }
    }

    /// Field by field, the sum of two counts, or `None` where a sum is more
    /// than a count can hold.
    pub fn checked_add(self, rhs: Count) -> (r: Option<Count>)
        ensures
            match r {
                Some(sum) => self@.plus(rhs@).fits() && sum@ == self@.plus(rhs@),
                None => !self@.plus(rhs@).fits(),
            },
    {
        let newlines = self.newlines.checked_add(rhs.newlines);
        let words = self.words.checked_add(rhs.words);
        let bytes = self.bytes.checked_add(rhs.bytes);
        let chars = self.chars.checked_add(rhs.chars);
        let max_line = self.max_line.checked_add(rhs.max_line);
        match (newlines, words, bytes, chars, max_line) {
            (Some(newlines), Some(words), Some(bytes), Some(chars), Some(max_line)) => Some(
                Count { newlines, words, bytes, chars, max_line },
            ),
            _ => None,
        }
    }

    /// The count, to be shown under `opts`.
    pub fn display<'a>(&'a self, opts: &'a Options) -> (r: Display<'a>)
        ensures
            r.count() == *self,
            r.opts() == *opts,
    {
        Display::new(self, opts)
    }

    /// Reads `bytes` to its end and returns the counts of what it delivered,
    /// or the first failed read, at which it stops.
    ///
    /// `bytes` is a stream that ends, and stays at its end, after no more
    /// items than a `u64` can count.
    pub fn count<I>(bytes: I) -> (r: Result<Count, std::io::Error>) where
        I: Iterator<Item = Result<u8, std::io::Error>>,
        requires
            bytes.obeys_prophetic_iter_laws(),
            bytes.decrease() is Some,
            bytes.remaining().len() <= u64::MAX,
        ensures
            all_ok(bytes.remaining()) ==> (r matches Ok(c) && c@ == tally(
                delivered(bytes.remaining()),
            )),
            forall|i: int| #[trigger]
                fails_at(bytes.remaining(), i) ==> r == Err::<Count, std::io::Error>(
                    bytes.remaining()[i]->Err_0,
                ),
    {
        Count::from_iter(bytes)
    }

    /// The counts of the bytes that `bytes` delivers: one pass, in which a
    /// word begins where a byte that is no white space follows white space or
    /// the start, a character with each byte that continues none, and a line
    /// ends with each newline. A failed read ends the pass, and is returned.
    ///
    /// `bytes` is a stream that ends, and stays at its end, after no more
    /// items than a `u64` can count.
    pub fn from_iter<I>(bytes: I) -> (r: Result<Count, std::io::Error>) where
        I: Iterator<Item = Result<u8, std::io::Error>>,
        requires
            bytes.obeys_prophetic_iter_laws(),
            bytes.decrease() is Some,
            bytes.remaining().len() <= u64::MAX,
        ensures
            all_ok(bytes.remaining()) ==> (r matches Ok(c) && c@ == tally(
                delivered(bytes.remaining()),
            )),
            forall|i: int| #[trigger]
                fails_at(bytes.remaining(), i) ==> r == Err::<Count, std::io::Error>(
                    bytes.remaining()[i]->Err_0,
                ),
    {
        let ghost items = bytes.remaining();
        let ghost mut seen: Seq<u8> = Seq::empty();
        let mut rest = bytes;
        let mut count = Count::new();
        let mut line: u64 = 0;
        let mut state = State::Whitespace;
        loop
            invariant
                rest.obeys_prophetic_iter_laws(),
                rest.decrease() is Some,
                items == bytes.remaining(),
                items.len() <= u64::MAX,
                seen.len() + rest.remaining().len() == items.len(),
                forall|i: int|
                    0 <= i < rest.remaining().len() ==> rest.remaining()[i] == items[seen.len()
                        + i],
                forall|i: int| 0 <= i < seen.len() ==> items[i] == Ok::<u8, std::io::Error>(seen[i]),
                count@ == tally(seen),
                line == line_tail(seen),
                (state is Word) == (seen.len() > 0 && !is_whitespace(seen.last())),
            decreases rest.decrease()->0,
        {
            match rest.next() {
                None => {
                    proof {
                        assert(delivered(items) =~= seen);
                    }
                    return Ok(count);
                },
                Some(Err(e)) => {
                    proof {
                        let at = seen.len() as int;
                        assert forall|i: int| #[trigger] fails_at(items, i) implies i == at by {
                            lemma_fails_once(items, i, at);
                        }
                    }
                    return Err(e);
                },
                Some(Ok(byte)) => {
                    proof {
                        lemma_push(seen, byte);
                        lemma_bounded(seen.push(byte));
                    }
                    count.bytes += 1;
                    if byte == 0x0A {
                        count.newlines += 1;
                        line = 0;
                    } else {
                        line += 1;
                        if line > count.max_line {
                            count.max_line = line;
                        }
                    }
                    let blank = whitespace(byte);
                    state = match state {
                        State::Whitespace => if blank {
                            State::Whitespace
                        } else {
                            count.words += 1;
                            State::Word
                        },
                        State::Word => if blank {
                            State::Whitespace
                        } else {
                            State::Word
                        },
                    };
                    if byte & 0xC0 != 0x80 {
                        count.chars += 1;
                    }
                    proof {
                        seen = seen.push(byte);
                    }
                },
            }
        }
    }
}

impl vstd::std_specs::ops::AddSpecImpl for Count {
    open spec fn obeys_add_spec() -> bool {
        true
    }

    open spec fn add_req(self, rhs: Count) -> bool {
        self@.plus(rhs@).fits()
    }

    open spec fn add_spec(self, rhs: Count) -> Count {
        Count {
            newlines: (self.newlines + rhs.newlines) as u64,
            words: (self.words + rhs.words) as u64,
            bytes: (self.bytes + rhs.bytes) as u64,
            chars: (self.chars + rhs.chars) as u64,
            max_line: (self.max_line + rhs.max_line) as u64,
        }
    }
}

impl std::ops::Add for Count {
    type Output = Count;

    /// Field by field, the sum of two counts, as long as each sum can be
    /// held.
    fn add(self, rhs: Count) -> (r: Count)
        ensures
            r@ == self@.plus(rhs@),
    {
        Count {
            newlines: self.newlines + rhs.newlines,
            words: self.words + rhs.words,
            bytes: self.bytes + rhs.bytes,
            chars: self.chars + rhs.chars,
            max_line: self.max_line + rhs.max_line,
        }
    }
}

} // verus!
