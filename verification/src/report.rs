//! What a run prints: one line for each input, and a line with the total
//! after more than one.

use vstd::prelude::*;
use crate::counter::display::rendered;
use crate::counter::model::Tally;
use crate::counter::Count;
use crate::options::Options;

verus! {

/// The counts that the line of an input shows: its own, or zeros where it
/// could not be counted.
pub open spec fn shown<E>(result: Result<Count, E>) -> Tally {
    match result {
        Ok(count) => count@,
        Err(_) => Tally::zero(),
    }
}

/// The total after an input: with its counts added, or as it was where the
/// input could not be counted.
pub open spec fn total_with<E>(total: Tally, result: Result<Count, E>) -> Tally {
    match result {
        Ok(count) => total.plus(count@),
        Err(_) => total,
    }
}

/// Whether standard input is counted: no file was named.
pub fn reads_stdin(opts: &Options) -> (r: bool)
    ensures
        r == (opts.files@.len() == 0),
{
    opts.files.len() == 0
}

/// The line of the input `name`: the row of its counts, or of zeros where it
/// could not be counted, then a space and the name.
pub fn line_for<E>(result: &Result<Count, E>, opts: &Options, name: &str) -> (line: String)
    ensures
        line@ == rendered(shown(*result), opts@) + seq![' '] + name@,
{
    match result {
        Ok(count) => count.display(opts).line(name),
        Err(_) => Count::new().display(opts).line(name),
    }
}

/// The total after an input, or `None` where it is more than a count can
/// hold. An input that could not be counted leaves the total as it is.
pub fn total_after<E>(total: Count, result: &Result<Count, E>) -> (r: Option<Count>)
    ensures
        match r {
            Some(sum) => total_with(total@, *result).fits() && sum@ == total_with(total@, *result),
            None => !total_with(total@, *result).fits(),
        },
{
    match result {
        Ok(count) => total.checked_add(*count),
        Err(_) => Some(total),
    }
}

/// The last line, where more than one file was named: the row of the total,
/// a space, and the word `total`.
pub fn total_line(total: &Count, opts: &Options) -> (r: Option<String>)
    ensures
        match r {
            Some(line) => opts.files@.len() > 1 && line@ == rendered(total@, opts@) + seq![' ']
                + "total"@,
            None => opts.files@.len() <= 1,
        },
{
    if opts.files.len() > 1 {
        Some(total.display(opts).line("total"))
    } else {
        None
    }
}

} // verus!
