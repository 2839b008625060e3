//! The row that shows the counts: the chosen ones, each in decimal, right
//! aligned in columns of one width, with one space before each column.

use vstd::prelude::*;
use vstd::string::StringExecFns;
use crate::counter::model::Tally;
use crate::counter::Count;
use crate::options::{Options, OptionsView};

verus! {

/// Number of decimal digits of `n`; zero has one.
pub open spec fn digit_count(n: nat) -> nat
    decreases n,
{
    if n < 10 {
        1
    } else {
        1 + digit_count(n / 10)
    }
}

/// The character of the digit `d`.
pub open spec fn digit(d: nat) -> char {
    if d == 0 {
        '0'
    } else if d == 1 {
        '1'
    } else if d == 2 {
        '2'
    } else if d == 3 {
        '3'
    } else if d == 4 {
        '4'
    } else if d == 5 {
        '5'
    } else if d == 6 {
        '6'
    } else if d == 7 {
        '7'
    } else if d == 8 {
        '8'
    } else {
        '9'
    }
}

/// `n` in decimal, without leading zeros.
pub open spec fn decimal(n: nat) -> Seq<char>
    decreases n,
{
    if n < 10 {
        seq![digit(n)]
    } else {
        decimal(n / 10).push(digit(n % 10))
    }
}

/// The counts that the options choose, in the order of the row: newlines,
/// words, characters, bytes, longest line.
pub open spec fn selected(count: Tally, opts: OptionsView) -> Seq<nat> {
    let lines = if opts.lines {
        seq![count.newlines]
    } else {
        seq![]
    };
    let words = if opts.words {
        lines.push(count.words)
    } else {
        lines
    };
    let chars = if opts.chars {
        words.push(count.chars)
    } else {
        words
    };
    let bytes = if opts.bytes {
        chars.push(count.bytes)
    } else {
        chars
    };
    if opts.max_line {
        bytes.push(count.max_line)
    } else {
        bytes
    }
}

/// The largest number of digits among `values`, 0 where there is none.
pub open spec fn widest(values: Seq<nat>) -> nat
    decreases values.len(),
{
    if values.len() == 0 {
        0
    } else if widest(values.drop_last()) >= digit_count(values.last()) {
        widest(values.drop_last())
    } else {
        digit_count(values.last())
    }
}

/// The width of the columns: for at most one file, that of the widest chosen
/// count, and no more than 7; for several files, 7.
pub open spec fn width(count: Tally, opts: OptionsView) -> nat {
    if opts.files.len() <= 1 {
        if widest(selected(count, opts)) <= 7 {
            widest(selected(count, opts))
        } else {
            7
        }
    } else {
        7
    }
}

/// `value` in decimal, with spaces before it up to `width` characters; a
/// value with more digits is not cut.
pub open spec fn cell(value: nat, width: nat) -> Seq<char> {
    if digit_count(value) >= width {
        decimal(value)
    } else {
        Seq::new((width - digit_count(value)) as nat, |i: int| ' ') + decimal(value)
    }
}

/// The cells of `values`, one space between two of them.
pub open spec fn row(values: Seq<nat>, width: nat) -> Seq<char>
    decreases values.len(),
{
    if values.len() == 0 {
        seq![]
    } else if values.len() == 1 {
        cell(values[0], width)
    } else {
        row(values.drop_last(), width) + seq![' '] + cell(values.last(), width)
    }
}

/// The row that shows `count` under `opts`: one space, and after it the
/// cells of the chosen counts.
pub open spec fn rendered(count: Tally, opts: OptionsView) -> Seq<char> {
    seq![' '] + row(selected(count, opts), width(count, opts))
}

/// 10 to the power `k`.
pub open spec fn pow10(k: nat) -> nat
    decreases k,
{
    if k == 0 {
        1
    } else {
        10 * pow10((k - 1) as nat)
    }
}

/// The number of digits of a positive `n` is the one `d` with
/// `10^(d-1) <= n < 10^d`: the floor of its logarithm to base 10, plus one.
pub proof fn lemma_digit_count_is_log10(n: nat)
    requires
        n > 0,
    ensures
        pow10((digit_count(n) - 1) as nat) <= n < pow10(digit_count(n)),
    decreases n,
{
    if n >= 10 {
        lemma_digit_count_is_log10(n / 10);
    }
}

/// A number is shown with as many characters as it has digits.
pub proof fn lemma_decimal_len(n: nat)
    ensures
        decimal(n).len() == digit_count(n),
    decreases n,
{
    if n >= 10 {
        lemma_decimal_len(n / 10);
    }
}

/// No value has more digits than the widest, and one of them has as many,
/// where there is any.
pub proof fn lemma_widest(values: Seq<nat>)
    ensures
        forall|i: int| 0 <= i < values.len() ==> digit_count(#[trigger] values[i]) <= widest(values),
        values.len() > 0 ==> exists|i: int|
            0 <= i < values.len() && digit_count(#[trigger] values[i]) == widest(values),
        values.len() == 0 ==> widest(values) == 0,
    decreases values.len(),
{
    if values.len() > 0 {
        let before = values.drop_last();
        lemma_widest(before);
        assert forall|i: int| 0 <= i < values.len() implies digit_count(#[trigger] values[i])
            <= widest(values) by {
            if i < before.len() {
                assert(values[i] == before[i]);
            }
        }
        if widest(before) >= digit_count(values.last()) && before.len() > 0 {
            let i = choose|i: int|
                0 <= i < before.len() && digit_count(#[trigger] before[i]) == widest(before);
            assert(digit_count(values[i]) == widest(values));
        } else {
            assert(digit_count(values[values.len() - 1]) == widest(values));
        }
    }
}

/// The columns are never wider than 7, and as wide as that where several
/// files are counted, however small the counts are.
pub proof fn lemma_width(count: Tally, opts: OptionsView)
    ensures
        width(count, opts) <= 7,
        opts.files.len() > 1 ==> width(count, opts) == 7,
        opts.files.len() <= 1 && widest(selected(count, opts)) <= 7 ==> width(count, opts)
            == widest(selected(count, opts)),
{
}

/// A cell is as long as the column is wide, or as the value has digits if
/// these are more; it ends in the digits of the value, and spaces are before
/// them.
pub proof fn lemma_cell(value: nat, width: nat)
    ensures
        cell(value, width).len() == if digit_count(value) >= width {
            digit_count(value)
        } else {
            width
        },
        cell(value, width).subrange(
            cell(value, width).len() - digit_count(value),
            cell(value, width).len() as int,
        ) == decimal(value),
        forall|i: int|
            0 <= i < cell(value, width).len() - digit_count(value) ==> cell(value, width)[i]
                == ' ',
{
    lemma_decimal_len(value);
}

/// A number below `10^k` has at most `k` digits.
proof fn lemma_digit_count_below(n: nat, k: nat)
    requires
        k >= 1,
        n < pow10(k),
    ensures
        digit_count(n) <= k,
    decreases k,
{
    if n >= 10 {
        assert(pow10(1) == 10) by {
            reveal_with_fuel(pow10, 2);
        }
        lemma_digit_count_below(n / 10, (k - 1) as nat);
    }
}

/// What a `u64` holds has at most 20 digits.
proof fn lemma_digit_count_u64(n: u64)
    ensures
        1 <= digit_count(n as nat) <= 20,
{
    assert(pow10(20) == 100000000000000000000) by {
        reveal_with_fuel(pow10, 21);
    }
    lemma_digit_count_below(n as nat, 20);
}

/// The number of decimal digits of `n`.
fn digits(n: u64) -> (d: usize)
    ensures
        d == digit_count(n as nat),
        1 <= d <= 20,
{
    proof {
        lemma_digit_count_u64(n);
    }
    let mut d: usize = 1;
    let mut rest: u64 = n;
    while rest >= 10
        invariant
            1 <= d,
            d + digit_count(rest as nat) == digit_count(n as nat) + 1,
            digit_count(n as nat) <= 20,
        decreases rest,
    {
        rest = rest / 10;
        d = d + 1;
    }
    d
}

/// The text of the digit `d`.
fn digit_text(d: u64) -> (t: &'static str)
    requires
        d < 10,
    ensures
        t@ == seq![digit(d as nat)],
{
    proof {
        reveal_strlit("0");
        reveal_strlit("1");
        reveal_strlit("2");
        reveal_strlit("3");
        reveal_strlit("4");
        reveal_strlit("5");
        reveal_strlit("6");
        reveal_strlit("7");
        reveal_strlit("8");
        reveal_strlit("9");
    }
    let t = if d == 0 {
        "0"
    } else if d == 1 {
        "1"
    } else if d == 2 {
        "2"
    } else if d == 3 {
        "3"
    } else if d == 4 {
        "4"
    } else if d == 5 {
        "5"
    } else if d == 6 {
        "6"
    } else if d == 7 {
        "7"
    } else if d == 8 {
        "8"
    } else {
        "9"
    };
    t
}

/// Appends `n` in decimal to `out`.
fn push_decimal(out: &mut String, n: u64)
    ensures
        final(out)@ == old(out)@ + decimal(n as nat),
    decreases n,
{
    if n >= 10 {
        push_decimal(out, n / 10);
    }
    out.append(digit_text(n % 10));
    assert(final(out)@ =~= old(out)@ + decimal(n as nat)) by {
        if n >= 10 {
        }
    }
}

/// Appends `count` spaces to `out`.
fn push_spaces(out: &mut String, count: usize)
    ensures
        final(out)@ == old(out)@ + Seq::new(count as nat, |i: int| ' '),
{
    proof {
        reveal_strlit(" ");
    }
    let mut done: usize = 0;
    while done < count
        invariant
            done <= count,
            out@ =~= old(out)@ + Seq::new(done as nat, |i: int| ' '),
            " "@ =~= seq![' '],
        decreases count - done,
    {
        out.append(" ");
        done = done + 1;
    }
}

/// Appends the cell of `value` to `out`, which holds the space that the row
/// begins with and the cells of the values `before`; a space goes between
/// these cells and the new one.
fn push_cell(
    out: &mut String,
    first: bool,
    value: u64,
    width: usize,
    Ghost(before): Ghost<Seq<nat>>,
)
    requires
        old(out)@ == seq![' '] + row(before, width as nat),
        first == (before.len() == 0),
    ensures
        final(out)@ == seq![' '] + row(before.push(value as nat), width as nat),
{
    if !first {
        push_spaces(out, 1);
    }
    let d = digits(value);
    if d < width {
        push_spaces(out, width - d);
    }
    push_decimal(out, value);
    proof {
        let after = before.push(value as nat);
        assert(after.drop_last() =~= before);
        assert(final(out)@ =~= seq![' '] + row(after, width as nat));
    }
}

/// A count to be shown under options.
pub struct Display<'a> {
    count: &'a Count,
    opts: &'a Options,
}

impl<'a> Display<'a> {
    /// The count that is shown.
    pub closed spec fn count(&self) -> Count {
        *self.count
    }

    /// The options under which it is shown.
    pub closed spec fn opts(&self) -> Options {
        *self.opts
    }

    /// The text that shows the count.
    pub open spec fn text(&self) -> Seq<char> {
        rendered(self.count()@, self.opts()@)
    }

    /// `count`, to be shown under `opts`.
    pub fn new(count: &'a Count, opts: &'a Options) -> (r: Self)
        ensures
            r.count() == *count,
            r.opts() == *opts,
    {
        Display { count, opts }
    }

    /// The width of each column.
    pub fn field_width(&self) -> (w: usize)
        ensures
            w == width(self.count()@, self.opts()@),
    {
        if self.opts.files.len() <= 1 {
            let mut most: usize = 0;
            let ghost mut seen: Seq<nat> = seq![];
            if self.opts.lines {
                most = larger(most, digits(self.count.newlines));
                proof {
                    seen = lemma_widest_push(seen, self.count.newlines as nat);
                }
            }
            if self.opts.words {
                most = larger(most, digits(self.count.words));
                proof {
                    seen = lemma_widest_push(seen, self.count.words as nat);
                }
            }
            if self.opts.chars {
                most = larger(most, digits(self.count.chars));
                proof {
                    seen = lemma_widest_push(seen, self.count.chars as nat);
                }
            }
            if self.opts.bytes {
                most = larger(most, digits(self.count.bytes));
                proof {
                    seen = lemma_widest_push(seen, self.count.bytes as nat);
                }
            }
            if self.opts.max_line {
                most = larger(most, digits(self.count.max_line));
                proof {
                    seen = lemma_widest_push(seen, self.count.max_line as nat);
                }
            }
            if most < 7 {
                most
            } else {
                7
            }
        } else {
            7
        }
    }

    /// The row: the chosen counts in the order newlines, words, characters,
    /// bytes, longest line, each right aligned to the width of the columns,
    /// with one space before the first of them and between two of them.
    pub fn render(&self) -> (r: String)
        ensures
            r@ == self.text(),
    {
        let width = self.field_width();
        let mut out = String::new();
        push_spaces(&mut out, 1);
        assert(out@ =~= seq![' '] + row(Seq::<nat>::empty(), width as nat));
        let mut first = true;
        let ghost mut seen: Seq<nat> = seq![];
        if self.opts.lines {
            push_cell(&mut out, first, self.count.newlines, width, Ghost(seen));
            first = false;
            proof {
                seen = seen.push(self.count.newlines as nat);
            }
        }
        if self.opts.words {
            push_cell(&mut out, first, self.count.words, width, Ghost(seen));
            first = false;
            proof {
                seen = seen.push(self.count.words as nat);
            }
        }
        if self.opts.chars {
            push_cell(&mut out, first, self.count.chars, width, Ghost(seen));
            first = false;
            proof {
                seen = seen.push(self.count.chars as nat);
            }
        }
        if self.opts.bytes {
            push_cell(&mut out, first, self.count.bytes, width, Ghost(seen));
            first = false;
            proof {
                seen = seen.push(self.count.bytes as nat);
            }
        }
        if self.opts.max_line {
            push_cell(&mut out, first, self.count.max_line, width, Ghost(seen));
            proof {
                seen = seen.push(self.count.max_line as nat);
            }
        }
        out
    }

    /// The line of one input: the row, a space, and the name of the input.
    pub fn line(&self, name: &str) -> (r: String)
        ensures
            r@ == self.text() + seq![' '] + name@,
    {
        let mut out = self.render();
        push_spaces(&mut out, 1);
        out.append(name);
        out
    }
}

/// The larger of two numbers.
fn larger(a: usize, b: usize) -> (r: usize)
    ensures
        r == if a >= b { a } else { b },
{
    if a >= b {
        a
    } else {
        b
    }
}

/// With one more value, the widest is that value or what it was.
proof fn lemma_widest_push(values: Seq<nat>, value: nat) -> (r: Seq<nat>)
    ensures
        r == values.push(value),
        widest(r) == if widest(values) >= digit_count(value) {
            widest(values)
        } else {
            digit_count(value)
        },
{
    assert(values.push(value).drop_last() =~= values);
    values.push(value)
}

} // verus!
