//! The command line parser of the `getopts` crate, as far as the options of
//! this library use it. Nothing in this file is proved: each contract states
//! what the crate's source shows.

use vstd::prelude::*;
use vstd::utf8::is_ascii_chars;

verus! {

/// The parser of `getopts` with the options that were declared to it. It
/// holds a `getopts::Options`, of which Verus sees nothing.
#[verifier::external_body]
pub struct Parser {
    inner: getopts::Options,
}

/// `getopts::Matches`: what the parser found in a command line. What it
/// holds has the names `occurrences` and `free_args`.
#[verifier::external_type_specification]
#[verifier::external_body]
pub struct ExMatches(getopts::Matches);

/// `getopts::Fail`: why the parser refused a command line. Nothing is said
/// of what it holds.
#[verifier::external_type_specification]
#[verifier::external_body]
pub struct ExFail(getopts::Fail);

/// One option as it was declared: its short name, its long name, its
/// description, the hint for its value, and whether it takes a value.
pub type Group = (Seq<char>, Seq<char>, Seq<char>, Seq<char>, bool);

/// How often each declared option was given, by either of its names: one
/// entry for each time, with the value where the option takes one.
pub type Occurrences = Map<Seq<char>, Seq<Option<Seq<char>>>>;

/// The options that were declared to `parser`, in their order.
pub uninterp spec fn groups(parser: Parser) -> Seq<Group>;

/// What `matches` holds of the options that were declared when it was made.
pub uninterp spec fn occurrences(matches: getopts::Matches) -> Occurrences;

/// The arguments in `matches` that belong to no option, in their order.
pub uninterp spec fn free_args(matches: getopts::Matches) -> Seq<Seq<char>>;

/// What `getopts::Options::parse` finds in `args` under the declarations
/// `groups`, or `None` where it refuses the arguments.
pub uninterp spec fn parsed(groups: Seq<Group>, args: Seq<Seq<char>>) -> Option<
    (Occurrences, Seq<Seq<char>>),
>;

/// The text that `getopts::Options::usage` derives from the declarations
/// `groups` below the lines of `brief`.
pub uninterp spec fn usage_text(groups: Seq<Group>, brief: Seq<char>) -> Seq<char>;

/// The names that `getopts` accepts for one option: a short name of at most
/// one character, which is ASCII, a long name that is empty or longer than one
/// character, and not both of them empty.
pub open spec fn names_allowed(short: Seq<char>, long: Seq<char>) -> bool {
    &&& short.len() <= 1
    &&& is_ascii_chars(short)
    &&& long.len() != 1
    &&& short.len() + long.len() > 0
}

/// `name` is the short or the long name of a declared option.
pub open spec fn declares(groups: Seq<Group>, name: Seq<char>) -> bool {
    name.len() > 0 && exists|i: int|
        0 <= i < groups.len() && ((#[trigger] groups[i]).0 == name || groups[i].1 == name)
}

/// The texts of a list of arguments.
pub open spec fn texts(args: Seq<&str>) -> Seq<Seq<char>> {
    Seq::new(args.len(), |i: int| args[i]@)
}

/// The texts of a list of strings.
pub open spec fn string_texts(list: Seq<String>) -> Seq<Seq<char>> {
    Seq::new(list.len(), |i: int| list[i]@)
}

/// `getopts::Options::new`: a parser that declares no option.
#[verifier::external_body]
pub(crate) fn new_parser() -> (parser: Parser)
    ensures
        groups(parser) == Seq::<Group>::empty(),
{
    Parser { inner: getopts::Options::new() }
}

/// `getopts::Options::optflag`: declares, after those that are there, an
/// option that takes no value. The crate panics on other names than those
/// of `names_allowed`, here or when it parses.
#[verifier::external_body]
pub(crate) fn optflag(parser: &mut Parser, short: &str, long: &str, desc: &str)
    requires
        names_allowed(short@, long@),
    ensures
        groups(*final(parser)) == groups(*old(parser)).push(
            (short@, long@, desc@, Seq::<char>::empty(), false),
        ),
{
    parser.inner.optflag(short, long, desc);
}

/// `getopts::Options::optopt`: declares, after those that are there, an
/// option that takes a value, which the usage text shows as `hint`.
#[verifier::external_body]
pub(crate) fn optopt(
    parser: &mut Parser,
    short: &str,
    long: &str,
    desc: &str,
    hint: &str,
)
    requires
        names_allowed(short@, long@),
    ensures
        groups(*final(parser)) == groups(*old(parser)).push(
            (short@, long@, desc@, hint@, true),
        ),
{
    parser.inner.optopt(short, long, desc, hint);
}

/// `getopts::Options::parse`: what it finds depends on the declarations and
/// the arguments alone; what it accepts knows every declared name, and no
/// other.
#[verifier::external_body]
pub(crate) fn parse(parser: &Parser, args: &[&str]) -> (r: Result<
    getopts::Matches,
    getopts::Fail,
>)
    ensures
        match r {
            Ok(matches) => parsed(groups(*parser), texts(args@)) == Some(
                (occurrences(matches), free_args(matches)),
            ),
            Err(_) => parsed(groups(*parser), texts(args@)) is None,
        },
        r matches Ok(matches) ==> forall|name: Seq<char>|
            #[trigger] occurrences(matches).dom().contains(name) <==> declares(
                groups(*parser),
                name,
            ),
{
    parser.inner.parse(args)
}

/// `getopts::Matches::opt_present`: whether the option was given. The crate
/// panics on a name that was not declared.
#[verifier::external_body]
pub(crate) fn opt_present(matches: &getopts::Matches, name: &str) -> (r: bool)
    requires
        occurrences(*matches).dom().contains(name@),
    ensures
        r == (occurrences(*matches)[name@].len() > 0),
{
    matches.opt_present(name)
}

/// `getopts::Matches::opt_str`: the value that the option had where it was
/// given first, if it was given and had one. The crate panics on a name that
/// was not declared.
#[verifier::external_body]
pub(crate) fn opt_str(matches: &getopts::Matches, name: &str) -> (r: Option<String>)
    requires
        occurrences(*matches).dom().contains(name@),
    ensures
        match r {
            Some(value) => occurrences(*matches)[name@].len() > 0 && occurrences(
                *matches,
            )[name@][0] == Some(value@),
            None => occurrences(*matches)[name@].len() == 0 || occurrences(
                *matches,
            )[name@][0] is None,
        },
{
    matches.opt_str(name)
}

/// The public field `free` of `getopts::Matches`.
#[verifier::external_body]
pub(crate) fn free(matches: getopts::Matches) -> (r: Vec<String>)
    ensures
        string_texts(r@) == free_args(matches),
{
    matches.free
}

/// `getopts::Options::usage`: the text depends on the declarations and on
/// `brief` alone.
#[verifier::external_body]
pub(crate) fn usage(parser: &Parser, brief: &str) -> (r: String)
    ensures
        r@ == usage_text(groups(*parser), brief@),
{
    parser.inner.usage(brief)
}

} // verus!
