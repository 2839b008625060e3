//! What holds of the counts of every input.

use vstd::prelude::*;
use vstd::utf8::{decode_utf8, length_of_first_scalar, pop_first_scalar, valid_utf8};
use vstd::std_specs::ops::AddSpec;
use crate::counter::model::{
    chars, is_continuation, is_newline, is_whitespace, lemma_bounded, line_tail, max_line,
    newlines, tally, words, Tally,
};
use crate::counter::Count;

verus! {

/// Adding tallies is associative.
pub proof fn lemma_plus_associative(a: Tally, b: Tally, c: Tally)
    ensures
        a.plus(b).plus(c) == a.plus(b.plus(c)),
{
}

/// Adding tallies is commutative.
pub proof fn lemma_plus_commutative(a: Tally, b: Tally)
    ensures
        a.plus(b) == b.plus(a),
{
}

/// The tally of the empty input changes nothing when it is added.
pub proof fn lemma_plus_zero(a: Tally)
    ensures
        a.plus(Tally::zero()) == a,
        Tally::zero().plus(a) == a,
{
}

/// Adding counts is associative, where the sum of the three can be held.
pub proof fn lemma_add_associative(a: Count, b: Count, c: Count)
    requires
        a@.plus(b@).plus(c@).fits(),
    ensures
        a.add_req(b),
        a.add_spec(b).add_req(c),
        b.add_req(c),
        a.add_req(b.add_spec(c)),
        a.add_spec(b).add_spec(c) == a.add_spec(b.add_spec(c)),
{
}

/// Adding counts is commutative.
pub proof fn lemma_add_commutative(a: Count, b: Count)
    ensures
        a.add_req(b) == b.add_req(a),
        a.add_spec(b) == b.add_spec(a),
{
}

/// Adding the count of the empty input changes nothing.
pub proof fn lemma_add_zero(a: Count, zero: Count)
    requires
        zero@ == Tally::zero(),
    ensures
        a.add_req(zero),
        zero.add_req(a),
        a.add_spec(zero) == a,
        zero.add_spec(a) == a,
{
}

/// The empty input has no newline, no word, no byte, no character and no
/// line.
pub proof fn lemma_empty()
    ensures
        tally(Seq::<u8>::empty()) == Tally::zero(),
{
}

/// The continuation bytes are those from 0x80 to 0xBF.
pub proof fn lemma_continuation_range(byte: u8)
    ensures
        is_continuation(byte) <==> 0x80 <= byte <= 0xBF,
{
    assert((byte & 0xC0 == 0x80) <==> (0x80 <= byte <= 0xBF)) by (bit_vector);
}

/// `s` holds ASCII only.
pub open spec fn is_ascii(s: Seq<u8>) -> bool {
    forall|i: int| 0 <= i < s.len() ==> #[trigger] s[i] < 0x80
}

/// In ASCII every byte is a character, and there are no more words than
/// characters.
pub proof fn lemma_ascii(s: Seq<u8>)
    requires
        is_ascii(s),
    ensures
        chars(s) == s.len(),
        tally(s).chars == tally(s).bytes,
        words(s) <= chars(s),
    decreases s.len(),
{
    if s.len() > 0 {
        lemma_ascii(s.drop_last());
        lemma_continuation_range(s.last());
        lemma_bounded(s);
    }
}

/// The characters of two inputs, one read after the other, are those of both.
pub proof fn lemma_chars_concat(s: Seq<u8>, t: Seq<u8>)
    ensures
        chars(s + t) == chars(s) + chars(t),
    decreases t.len(),
{
    if t.len() > 0 {
        assert((s + t).drop_last() =~= s + t.drop_last());
        lemma_chars_concat(s, t.drop_last());
    }
}

/// In valid UTF-8 there are as many characters as the bytes encode.
pub proof fn lemma_chars_of_utf8(s: Seq<u8>)
    requires
        valid_utf8(s),
    ensures
        chars(s) == decode_utf8(s).len(),
    decreases s.len(),
{
    if s.len() > 0 {
        let width = length_of_first_scalar(s);
        let first = s.subrange(0, width);
        let rest = pop_first_scalar(s);
        assert(s =~= first + rest);
        lemma_chars_of_utf8(rest);
        lemma_chars_concat(first, rest);
        assert(chars(first) == 1) by {
            lemma_continuation_range(s[0]);
            if width >= 2 {
                lemma_continuation_range(s[1]);
            }
            if width >= 3 {
                lemma_continuation_range(s[2]);
            }
            if width >= 4 {
                lemma_continuation_range(s[3]);
            }
            reveal_with_fuel(chars, 5);
        }
    }
}

/// `s` is how `t` begins.
pub open spec fn is_prefix(s: Seq<u8>, t: Seq<u8>) -> bool {
    s.len() <= t.len() && t.take(s.len() as int) == s
}

/// No count but that of the unfinished line gets smaller as more is read.
pub proof fn lemma_monotonic(s: Seq<u8>, t: Seq<u8>)
    requires
        is_prefix(s, t),
    ensures
        newlines(s) <= newlines(t),
        words(s) <= words(t),
        s.len() <= t.len(),
        chars(s) <= chars(t),
        max_line(s) <= max_line(t),
    decreases t.len() - s.len(),
{
    if s.len() == t.len() {
        assert(t =~= s);
    } else {
        assert(t.drop_last().take(s.len() as int) =~= s);
        lemma_monotonic(s, t.drop_last());
    }
}

/// No byte from `from` up to `to` is a newline.
pub open spec fn one_line(s: Seq<u8>, from: int, to: int) -> bool {
    forall|i: int| from <= i < to ==> !is_newline(#[trigger] s[i])
}

/// The unfinished line is the longest part without a newline that `s` ends
/// in.
pub proof fn lemma_line_tail(s: Seq<u8>)
    ensures
        line_tail(s) <= s.len(),
        one_line(s, s.len() - line_tail(s), s.len() as int),
        line_tail(s) < s.len() ==> is_newline(s[s.len() - line_tail(s) - 1]),
    decreases s.len(),
{
    if s.len() > 0 && !is_newline(s.last()) {
        let before = s.drop_last();
        lemma_line_tail(before);
        assert forall|i: int| s.len() - line_tail(s) <= i < s.len() implies !is_newline(
            #[trigger] s[i],
        ) by {
            if i < before.len() {
                assert(!is_newline(before[i]));
            }
        }
    }
}

/// No part of `s` without a newline is longer than the longest line.
pub proof fn lemma_max_line_covers(s: Seq<u8>, from: int, to: int)
    requires
        0 <= from <= to <= s.len(),
        one_line(s, from, to),
    ensures
        to - from <= max_line(s),
    decreases s.len(),
{
    if s.len() > 0 {
        if to == s.len() {
            lemma_line_tail(s);
        } else {
            lemma_max_line_covers(s.drop_last(), from, to);
        }
    }
}

/// Some part of `s` without a newline is as long as the longest line: the
/// part from the first to the second number returned.
pub proof fn lemma_max_line_attained(s: Seq<u8>) -> (part: (int, int))
    ensures
        0 <= part.0 <= part.1 <= s.len(),
        one_line(s, part.0, part.1),
        part.1 - part.0 == max_line(s),
    decreases s.len(),
{
    if s.len() == 0 {
        (0, 0)
    } else if max_line(s.drop_last()) >= line_tail(s) {
        let part = lemma_max_line_attained(s.drop_last());
        assert forall|i: int| part.0 <= i < part.1 implies !is_newline(#[trigger] s[i]) by {
            assert(!is_newline(s.drop_last()[i]));
        }
        part
    } else {
        lemma_line_tail(s);
        (s.len() - line_tail(s), s.len() as int)
    }
}

/// The bytes from `from` up to `to` are a word of `s`: none of them is white
/// space, and white space or an end of `s` is on either side.
pub open spec fn is_word(s: Seq<u8>, from: int, to: int) -> bool {
    &&& 0 <= from < to <= s.len()
    &&& forall|i: int| from <= i < to ==> !is_whitespace(#[trigger] s[i])
    &&& (from == 0 || is_whitespace(s[from - 1]))
    &&& (to == s.len() || is_whitespace(s[to]))
}

/// The words of `s`, each as the place where it starts and the place where it
/// ends.
pub open spec fn word_set(s: Seq<u8>) -> Set<(int, int)> {
    Set::new(|w: (int, int)| is_word(s, w.0, w.1))
}

/// Where the word starts that holds the byte at `i`.
spec fn word_start(s: Seq<u8>, i: int) -> int
    decreases i,
{
    if i <= 0 || is_whitespace(s[i - 1]) {
        i
    } else {
        word_start(s, i - 1)
    }
}

/// From the start of its word up to a byte there is no white space, and
/// before the start there is.
proof fn lemma_word_start(s: Seq<u8>, i: int)
    requires
        0 <= i < s.len(),
        !is_whitespace(s[i]),
    ensures
        0 <= word_start(s, i) <= i,
        forall|j: int| word_start(s, i) <= j <= i ==> !is_whitespace(#[trigger] s[j]),
        word_start(s, i) == 0 || is_whitespace(s[word_start(s, i) - 1]),
    decreases i,
{
    if i > 0 && !is_whitespace(s[i - 1]) {
        lemma_word_start(s, i - 1);
    }
}

/// The count of words is the number of the words: of the longest parts of
/// `s` that hold no white space.
pub proof fn lemma_words_are_counted(s: Seq<u8>)
    ensures
        word_set(s).finite(),
        word_set(s).len() == words(s),
    decreases s.len(),
{
    if s.len() == 0 {
        assert(word_set(s) =~= Set::<(int, int)>::empty());
    } else {
        let before = s.drop_last();
        let n = before.len() as int;
        lemma_words_are_counted(before);
        assert(forall|i: int| 0 <= i < n ==> s[i] == before[i]);
        if is_whitespace(s.last()) {
            // white space ends the word before it, if there is one
            assert(word_set(s) =~= word_set(before));
        } else if n == 0 || is_whitespace(before.last()) {
            // a word of one byte begins
            assert(word_set(s) =~= word_set(before).insert((n, n + 1)));
        } else {
            // the last word gets one byte longer
            let from = word_start(before, n - 1);
            lemma_word_start(before, n - 1);
            assert(word_set(s) =~= word_set(before).remove((from, n)).insert((from, n + 1)));
        }
    }
}

} // verus!
