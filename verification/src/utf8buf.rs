//! A buffer for the bytes of one character.

use vstd::prelude::*;
use vstd::slice::slice_subrange;
use vstd::utf8::{decode_utf8, valid_utf8};
use crate::utf8::str_from_utf8;

verus! {

/// A buffer that can hold the up to four bytes that encode one character in
/// UTF-8.
pub struct Utf8Buf {
    buf: [u8; 4],
    len: usize,
}

impl View for Utf8Buf {
    type V = Seq<u8>;

    /// The bytes in the buffer, in the order in which they were pushed.
    closed spec fn view(&self) -> Seq<u8> {
        self.buf@.take(self.len as int)
    }
}

impl Utf8Buf {
    #[verifier::type_invariant]
    spec fn in_bounds(self) -> bool {
        self.len <= 4
    }

    /// An empty buffer.
    pub fn new() -> (r: Self)
        ensures
            r@ == Seq::<u8>::empty(),
    {
        Utf8Buf { buf: [0u8; 4], len: 0 }
    }

    /// Empties the buffer.
    pub fn clear(&mut self)
        ensures
            final(self)@ == Seq::<u8>::empty(),
    {
        self.len = 0;
    }

    /// Whether the buffer holds four bytes, which is all that it can hold.
    pub fn is_full(&self) -> (r: bool)
        ensures
            r == (self@.len() == 4),
            self@.len() <= 4,
    {
        proof {
            use_type_invariant(self);
        }
        self.len == 4
    }

    /// Adds `byte` at the end and returns `true`; a full buffer stays as it
    /// is, and `false` is returned.
    pub fn push(&mut self, byte: u8) -> (r: bool)
        ensures
            r == (old(self)@.len() < 4),
            final(self)@ == if r {
                old(self)@.push(byte)
            } else {
                old(self)@
            },
    {
        proof {
            use_type_invariant(&*self);
        }
        if self.is_full() {
            return false;
        }
        self.buf[self.len] = byte;
        self.len += 1;
        true
    }

    /// The bytes in the buffer as text, if they are valid UTF-8.
    pub fn to_str(&self) -> (r: Result<&str, std::str::Utf8Error>)
        ensures
            r is Ok <==> valid_utf8(self@),
            r matches Ok(text) ==> text@ == decode_utf8(self@),
    {
        proof {
            use_type_invariant(self);
        }
        str_from_utf8(slice_subrange(self.buf.as_slice(), 0, self.len))
    }
}

} // verus!
