//! Which counts to show, and for which files: the options of the command
//! line.

pub mod cli;
pub mod names;

use vstd::prelude::*;
use vstd::utf8::{decode_utf8, valid_utf8};
use vstd::slice::slice_subrange;
use vstd::std_specs::iter::IteratorSpec;
use vstd::string::{to_string_from_display_ensures, StringExecFns};
use crate::options::names::{
    all_valid, decoded, finished, lemma_finished_stays, lemma_listed_holds_finished,
    lemma_names_push, listed, pending,
};
use crate::stream::{all_ok, delivered, fails_at, lemma_fails_once};
use crate::utf8::string_from_utf8;
use crate::options::cli::{
    declares, free, free_args, groups, new_parser, occurrences, opt_present, opt_str, optflag,
    optopt, parse, parsed, string_texts, texts, usage, usage_text, Group, Occurrences, Parser,
};

verus! {

/// Why no options came of the arguments.
#[derive(Debug)]
pub enum Error {
    /// The help text was asked for.
    Usage,
    /// The version was asked for.
    Version,
    /// A list of files to read the names from was given, and names as well.
    Files0FromWithFiles,
    /// The arguments were refused.
    Getopts(getopts::Fail),
    /// The list of file names could not be read.
    Io(std::io::Error),
    /// A name in the list of file names is not UTF-8.
    Utf8(std::string::FromUtf8Error),
}

impl Error {
    /// The text of the error, for the program `program_name` in the version
    /// `version`: the usage text or the version where one was asked for, else
    /// what is wrong, with the words of the error that lies below.
    pub fn message(&self, program_name: &str, version: &str) -> (r: String)
        ensures
            match *self {
                Error::Usage => r@ == usage_text(option_groups(), brief(program_name@)),
                Error::Version => r@ == program_name@ + " v"@ + version@,
                Error::Files0FromWithFiles => r@
                    == "invalid arguments: can't use --files0-from with a FILEs list"@,
                Error::Getopts(e) => exists|words: String|
                    to_string_from_display_ensures(&e, words) && r@ == "invalid arguments: "@
                        + words@,
                Error::Io(e) => exists|words: String|
                    to_string_from_display_ensures(&e, words) && r@
                        == "error reading file list: "@ + words@,
                Error::Utf8(e) => exists|words: String|
                    to_string_from_display_ensures(&e, words) && r@
                        == "error reading file list, invalid utf8: "@ + words@,
            },
    {
        match self {
            Error::Usage => Options::usage(program_name),
            Error::Version => Options::version(program_name, version),
            Error::Files0FromWithFiles => String::from_str(
                "invalid arguments: can't use --files0-from with a FILEs list",
            ),
            Error::Getopts(e) => {
                let words = e.to_string();
                String::from_str("invalid arguments: ").concat(words.as_str())
            },
            Error::Io(e) => {
                let words = e.to_string();
                String::from_str("error reading file list: ").concat(words.as_str())
            },
            Error::Utf8(e) => {
                let words = e.to_string();
                String::from_str("error reading file list, invalid utf8: ").concat(words.as_str())
            },
        }
    }
}

impl From<getopts::Fail> for Error {
    fn from(e: getopts::Fail) -> (r: Error) {
        Error::Getopts(e)
    }
}

impl vstd::std_specs::convert::FromSpecImpl<getopts::Fail> for Error {
    open spec fn obeys_from_spec() -> bool {
        true
    }

    open spec fn from_spec(e: getopts::Fail) -> Error {
        Error::Getopts(e)
    }
}

impl From<std::io::Error> for Error {
    fn from(e: std::io::Error) -> (r: Error) {
        Error::Io(e)
    }
}

impl vstd::std_specs::convert::FromSpecImpl<std::io::Error> for Error {
    open spec fn obeys_from_spec() -> bool {
        true
    }

    open spec fn from_spec(e: std::io::Error) -> Error {
        Error::Io(e)
    }
}

impl From<std::string::FromUtf8Error> for Error {
    fn from(e: std::string::FromUtf8Error) -> (r: Error) {
        Error::Utf8(e)
    }
}

impl vstd::std_specs::convert::FromSpecImpl<std::string::FromUtf8Error> for Error {
    open spec fn obeys_from_spec() -> bool {
        true
    }

    open spec fn from_spec(e: std::string::FromUtf8Error) -> Error {
        Error::Utf8(e)
    }
}

/// The counts to show and the files to count.
#[derive(Debug, PartialEq, Eq)]
pub struct Options {
    /// The files to count, in the order in which they were named.
    pub files: Vec<String>,
    /// Where the names of the files are to be read from, as long as they
    /// have not been read.
    pub files0_from: Option<String>,
    pub bytes: bool,
    pub chars: bool,
    pub lines: bool,
    pub max_line: bool,
    pub words: bool,
}

/// What the options hold, texts in place of strings.
pub struct OptionsView {
    pub files: Seq<Seq<char>>,
    pub files0_from: Option<Seq<char>>,
    pub bytes: bool,
    pub chars: bool,
    pub lines: bool,
    pub max_line: bool,
    pub words: bool,
}

impl View for Options {
    type V = OptionsView;

    open spec fn view(&self) -> OptionsView {
        OptionsView {
            files: string_texts(self.files@),
            files0_from: match self.files0_from {
                Some(name) => Some(name@),
                None => None,
            },
            bytes: self.bytes,
            chars: self.chars,
            lines: self.lines,
            max_line: self.max_line,
            words: self.words,
        }
    }
}

/// What the command line asked for, option by option.
#[derive(Debug, PartialEq, Eq)]
pub struct Parsed {
    pub help: bool,
    pub version: bool,
    pub bytes: bool,
    pub chars: bool,
    pub lines: bool,
    pub max_line: bool,
    pub words: bool,
    /// The value of `--files0-from`.
    pub files0_from: Option<String>,
    /// The arguments that are no options.
    pub free: Vec<String>,
}

/// What the command line asked for, texts in place of strings.
pub struct ParsedView {
    pub help: bool,
    pub version: bool,
    pub bytes: bool,
    pub chars: bool,
    pub lines: bool,
    pub max_line: bool,
    pub words: bool,
    pub files0_from: Option<Seq<char>>,
    pub free: Seq<Seq<char>>,
}

impl View for Parsed {
    type V = ParsedView;

    open spec fn view(&self) -> ParsedView {
        ParsedView {
            help: self.help,
            version: self.version,
            bytes: self.bytes,
            chars: self.chars,
            lines: self.lines,
            max_line: self.max_line,
            words: self.words,
            files0_from: match self.files0_from {
                Some(name) => Some(name@),
                None => None,
            },
            free: string_texts(self.free@),
        }
    }
}

/// The options that the command line knows.
pub open spec fn option_groups() -> Seq<Group> {
    seq![
        ("c"@, "bytes"@, "print the byte counts"@, Seq::<char>::empty(), false),
        ("m"@, "chars"@, "print unicode character counts"@, Seq::<char>::empty(), false),
        ("l"@, "lines"@, "print the newline counts"@, Seq::<char>::empty(), false),
        (
            "L"@,
            "max-line-length"@,
            "print the length of the longest line"@,
            Seq::<char>::empty(),
            false,
        ),
        ("w"@, "words"@, "print the word counts"@, Seq::<char>::empty(), false),
        (
            ""@,
            "files0-from"@,
            "read input file list from the specified file containing a NUL-terminated list of file names; use - to read from stdin"@,
            "F"@,
            true,
        ),
        ("h"@, "help"@, "display this help text and exit"@, Seq::<char>::empty(), false),
        ("v"@, "version"@, "output version information and exit"@, Seq::<char>::empty(), false),
    ]
}

/// Whether the option `name` was given.
pub open spec fn given(found: Occurrences, name: Seq<char>) -> bool {
    found[name].len() > 0
}

/// The value of the option `name` where it was given first.
pub open spec fn value(found: Occurrences, name: Seq<char>) -> Option<Seq<char>> {
    if found[name].len() > 0 {
        found[name][0]
    } else {
        None
    }
}

/// What was asked for, read from what the parser found.
pub open spec fn request(found: Occurrences, free: Seq<Seq<char>>) -> ParsedView {
    ParsedView {
        help: given(found, "h"@),
        version: given(found, "v"@),
        bytes: given(found, "c"@),
        chars: given(found, "m"@),
        lines: given(found, "l"@),
        max_line: given(found, "L"@),
        words: given(found, "w"@),
        files0_from: value(found, "files0-from"@),
        free,
    }
}

/// The options that a request leads to, where it leads to any: the counts
/// that it names, or newlines, words and bytes where it names none.
pub open spec fn chosen(asked: ParsedView) -> OptionsView {
    let none = !(asked.bytes || asked.chars || asked.lines || asked.max_line || asked.words);
    OptionsView {
        files: asked.free,
        files0_from: asked.files0_from,
        bytes: asked.bytes || none,
        chars: asked.chars,
        lines: asked.lines || none,
        max_line: asked.max_line,
        words: asked.words || none,
    }
}

/// `r` is what the request `asked` leads to: the help text or the version
/// where it asks for one, help first; an error where it names both a list of
/// file names and files; the chosen options in every other case.
pub open spec fn accords(r: Result<Options, Error>, asked: ParsedView) -> bool {
    if asked.help {
        r matches Err(Error::Usage)
    } else if asked.version {
        r matches Err(Error::Version)
    } else if asked.files0_from is Some && asked.free.len() > 0 {
        r matches Err(Error::Files0FromWithFiles)
    } else {
        r matches Ok(options) && options@ == chosen(asked)
    }
}

/// What the usage text says after the two ways to call the program.
pub const ABOUT: &'static str =
    " [OPTION]... --files0-from F\n\nPrint newline, word, and byte counts for each FILE, and a total if more than\none FILE is specified. If no FILEs are provide or if FILE is -, then read from\nstdin. A word is a sequence of characters delimited by white space. The\ncharacters count is a count of valid UTF-8 encoded unicode characters.\n\nWhich counts are printed can be filtered using the options below. The counts\nare always printed in the follwoing order: newline, word, character, byte,\nlongest line. Counts are separated by whitespace followed by the file name.";

/// The lines above the options in the usage text of the program `name`.
pub open spec fn brief(name: Seq<char>) -> Seq<char> {
    "Usage:\n  "@ + name + " [OPTION]... [FILE]...\n  "@ + name + ABOUT@
}

/// The arguments after the first, which names the program.
pub open spec fn after_program(args: Seq<Seq<char>>) -> Seq<Seq<char>> {
    if args.len() == 0 {
        args
    } else {
        args.subrange(1, args.len() as int)
    }
}

impl Options {
    /// The parser with the options of the command line.
    fn options() -> (r: Parser)
        ensures
            groups(r) == option_groups(),
    {
        let mut opts = new_parser();
        proof {
            reveal_strlit("c");
            reveal_strlit("bytes");
            reveal_strlit("m");
            reveal_strlit("chars");
            reveal_strlit("l");
            reveal_strlit("lines");
            reveal_strlit("L");
            reveal_strlit("max-line-length");
            reveal_strlit("w");
            reveal_strlit("words");
            reveal_strlit("");
            reveal_strlit("files0-from");
            reveal_strlit("h");
            reveal_strlit("help");
            reveal_strlit("v");
            reveal_strlit("version");
        }
        optflag(&mut opts, "c", "bytes", "print the byte counts");
        optflag(&mut opts, "m", "chars", "print unicode character counts");
        optflag(&mut opts, "l", "lines", "print the newline counts");
        optflag(&mut opts, "L", "max-line-length", "print the length of the longest line");
        optflag(&mut opts, "w", "words", "print the word counts");
        optopt(
            &mut opts,
            "",
            "files0-from",
            "read input file list from the specified file containing a NUL-terminated list of file names; use - to read from stdin",
            "F",
        );
        optflag(&mut opts, "h", "help", "display this help text and exit");
        optflag(&mut opts, "v", "version", "output version information and exit");
        opts
    }

    /// The usage text of the program `program_name`: how it is called and
    /// what it prints, and below that the options as `getopts` lists them.
    pub fn usage(program_name: &str) -> (r: String)
        ensures
            r@ == usage_text(option_groups(), brief(program_name@)),
    {
        let mut text = String::from_str("Usage:\n  ");
        text.append(program_name);
        text.append(" [OPTION]... [FILE]...\n  ");
        text.append(program_name);
        text.append(ABOUT);
        usage(&Self::options(), text.as_str())
    }

    /// The name of the program `program_name` with its version.
    pub fn version(program_name: &str, version: &str) -> (r: String)
        ensures
            r@ == program_name@ + " v"@ + version@,
    {
        let mut text = String::from_str(program_name);
        text.append(" v");
        text.append(version);
        text
    }

    /// The options that the arguments `args` lead to, which follow the name
    /// of the program.
    pub fn test_args(args: Vec<&str>) -> (r: Result<Options, Error>)
        ensures
            match parsed(option_groups(), texts(args@)) {
                Some((found, free)) => accords(r, request(found, free)),
                None => r matches Err(Error::Getopts(_)),
            },
    {
        let mut all: Vec<&str> = Vec::new();
        all.push("test");
        let mut i: usize = 0;
        while i < args.len()
            invariant
                i <= args.len(),
                all@ =~= seq!["test"] + args@.take(i as int),
            decreases args.len() - i,
        {
            all.push(args[i]);
            i = i + 1;
        }
        assert(after_program(texts(all@)) =~= texts(args@));
        Self::from_iter(all.as_slice())
    }

    /// The options that a command line without arguments leads to.
    pub fn test_empty() -> (r: Result<Options, Error>)
        ensures
            match parsed(option_groups(), Seq::<Seq<char>>::empty()) {
                Some((found, free)) => accords(r, request(found, free)),
                None => r matches Err(Error::Getopts(_)),
            },
    {
        let mut all: Vec<&str> = Vec::new();
        all.push("test");
        assert(after_program(texts(all@)) =~= Seq::<Seq<char>>::empty());
        Self::from_iter(all.as_slice())
    }

    /// Whether the bytes are the only count to show.
    pub fn only_bytes(&self) -> (r: bool)
        ensures
            r == (self.bytes && !(self.chars || self.lines || self.max_line || self.words)),
    {
        self.bytes && !(self.chars || self.lines || self.max_line || self.words)
    }

    /// The options with `files` as the files to count, which were read from
    /// the list that the options named.
    pub fn with_files(self, files: Vec<String>) -> (r: Options)
        ensures
            r == (Options { files, files0_from: None, ..self }),
    {
        Options {
            files,
            files0_from: None,
            bytes: self.bytes,
            chars: self.chars,
            lines: self.lines,
            max_line: self.max_line,
            words: self.words,
        }
    }

    /// Reads from `matches` what the command line asked for.
    fn read(matches: getopts::Matches) -> (r: Parsed)
        requires
            forall|name: Seq<char>|
                declares(option_groups(), name) ==> #[trigger] occurrences(matches).dom().contains(
                    name,
                ),
        ensures
            r@ == request(occurrences(matches), free_args(matches)),
    {
        proof {
            reveal_strlit("c");
            reveal_strlit("m");
            reveal_strlit("l");
            reveal_strlit("L");
            reveal_strlit("w");
            reveal_strlit("files0-from");
            reveal_strlit("h");
            reveal_strlit("v");
        }
        let help = opt_present(&matches, "h");
        let version = opt_present(&matches, "v");
        let files0_from = opt_str(&matches, "files0-from");
        let bytes = opt_present(&matches, "c");
        let chars = opt_present(&matches, "m");
        let lines = opt_present(&matches, "l");
        let max_line = opt_present(&matches, "L");
        let words = opt_present(&matches, "w");
        Parsed {
            help,
            version,
            bytes,
            chars,
            lines,
            max_line,
            words,
            files0_from,
            free: free(matches),
        }
    }

    /// The options that a request leads to, or why it leads to none.
    pub fn from_parsed(asked: Parsed) -> (r: Result<Options, Error>)
        ensures
            accords(r, asked@),
    {
        if asked.help {
            return Err(Error::Usage);
        }
        if asked.version {
            return Err(Error::Version);
        }
        if asked.files0_from.is_some() && asked.free.len() > 0 {
            return Err(Error::Files0FromWithFiles);
        }
        let mut opts = Options {
            files: asked.free,
            files0_from: asked.files0_from,
            bytes: asked.bytes,
            chars: asked.chars,
            lines: asked.lines,
            max_line: asked.max_line,
            words: asked.words,
        };
        if !(opts.bytes || opts.chars || opts.lines || opts.max_line || opts.words) {
            opts.lines = true;
            opts.words = true;
            opts.bytes = true;
        }
        Ok(opts)
    }

    /// The options that the command line `args` leads to, whose first
    /// argument names the program, or why it leads to none.
    pub fn from_iter(args: &[&str]) -> (r: Result<Options, Error>)
        ensures
            match parsed(option_groups(), after_program(texts(args@))) {
                Some((found, free)) => accords(r, request(found, free)),
                None => r matches Err(Error::Getopts(_)),
            },
    {
        let options = Self::options();
        let rest = if args.len() > 0 {
            slice_subrange(args, 1, args.len())
        } else {
            args
        };
        assert(texts(rest@) =~= after_program(texts(args@)));
        match parse(&options, rest) {
            Err(fail) => Err(Error::from(fail)),
            Ok(matches) => Self::from_parsed(Self::read(matches)),
        }
    }
}

/// The file names that `bytes` lists, each ended by a NUL byte, the last one
/// also by the end of the stream. A failed read and a name that is not UTF-8
/// are errors: the one that the pass meets first is returned, a name being
/// looked at when the NUL after it has been read, or at the end.
///
/// `bytes` is a stream that ends, and stays at its end.
pub fn load_files_from_iter<I>(bytes: I) -> (r: Result<Vec<String>, Error>) where
    I: Iterator<Item = Result<u8, std::io::Error>>,
    requires
        bytes.obeys_prophetic_iter_laws(),
        bytes.decrease() is Some,
    ensures
        all_ok(bytes.remaining()) ==> if all_valid(listed(delivered(bytes.remaining()))) {
            r matches Ok(files) && string_texts(files@) == decoded(
                listed(delivered(bytes.remaining())),
            )
        } else {
            r matches Err(Error::Utf8(_))
        },
        forall|i: int| #[trigger]
            fails_at(bytes.remaining(), i) ==> if all_valid(
                finished(delivered(bytes.remaining().take(i))),
            ) {
                r matches Err(Error::Io(e)) && e == bytes.remaining()[i]->Err_0
            } else {
                r matches Err(Error::Utf8(_))
            },
{
    let ghost items = bytes.remaining();
    let ghost mut seen: Seq<u8> = Seq::empty();
    let mut rest = bytes;
    let mut files: Vec<String> = Vec::new();
    let mut name: Vec<u8> = Vec::new();
    loop
        invariant
            rest.obeys_prophetic_iter_laws(),
            rest.decrease() is Some,
            items == bytes.remaining(),
            seen.len() + rest.remaining().len() == items.len(),
            forall|i: int|
                0 <= i < rest.remaining().len() ==> rest.remaining()[i] == items[seen.len() + i],
            forall|i: int| 0 <= i < seen.len() ==> items[i] == Ok::<u8, std::io::Error>(seen[i]),
            all_valid(finished(seen)),
            string_texts(files@) == decoded(finished(seen)),
            name@ == pending(seen),
        decreases rest.decrease()->0,
    {
        match rest.next() {
            None => {
                proof {
                    assert(delivered(items) =~= seen);
                    assert forall|i: int| !#[trigger] fails_at(items, i) by {}
                }
                if files.len() == 0 || name.len() > 0 {
                    match string_from_utf8(name) {
                        Err(e) => {
                            assert(!valid_utf8(listed(seen)[finished(seen).len() as int]));
                            return Err(Error::from(e));
                        },
                        Ok(text) => {
                            let ghost before = files@;
                            files.push(text);
                            proof {
                                lemma_texts_push(before, text, finished(seen), pending(seen));
                            }
                        },
                    }
                }
                return Ok(files);
            },
            Some(Err(e)) => {
                proof {
                    let at = seen.len() as int;
                    assert(delivered(items.take(at)) =~= seen);
                    assert forall|i: int| #[trigger] fails_at(items, i) implies i == at by {
                        lemma_fails_once(items, i, at);
                    }
                }
                return Err(Error::from(e));
            },
            Some(Ok(byte)) => {
                proof {
                    lemma_names_push(seen, byte);
                }
                if byte == 0 {
                    let done = name;
                    name = Vec::new();
                    match string_from_utf8(done) {
                        Err(e) => {
                            proof {
                                lemma_invalid_name(items, seen.push(byte));
                            }
                            return Err(Error::from(e));
                        },
                        Ok(text) => {
                            let ghost before = files@;
                            files.push(text);
                            proof {
                                lemma_texts_push(before, text, finished(seen), pending(seen));
                            }
                        },
                    }
                } else {
                    name.push(byte);
                }
                proof {
                    seen = seen.push(byte);
                }
            },
        }
    }
}

/// One more file name, and its text.
proof fn lemma_texts_push(files: Seq<String>, text: String, names: Seq<Seq<u8>>, name: Seq<u8>)
    requires
        string_texts(files) == decoded(names),
        text@ == decode_utf8(name),
    ensures
        string_texts(files.push(text)) == decoded(names.push(name)),
{
    assert(names.len() == decoded(names).len());
    assert forall|i: int| 0 <= i < files.len() + 1 implies string_texts(files.push(text))[i]
        == decoded(names.push(name))[i] by {
        if i < files.len() {
            assert(decoded(names)[i] == decode_utf8(names[i]));
        }
    }
}

/// Where the stream has delivered `seen`, whose last name is not UTF-8, no
/// later part of the stream makes the names valid.
proof fn lemma_invalid_name(items: Seq<Result<u8, std::io::Error>>, seen: Seq<u8>)
    requires
        seen.len() <= items.len(),
        forall|i: int| 0 <= i < seen.len() ==> items[i] == Ok::<u8, std::io::Error>(seen[i]),
        finished(seen).len() > 0,
        !valid_utf8(finished(seen).last()),
    ensures
        all_ok(items) ==> !all_valid(listed(delivered(items))),
        forall|i: int| #[trigger]
            fails_at(items, i) ==> !all_valid(finished(delivered(items.take(i)))),
{
    let last = finished(seen).len() - 1;
    if all_ok(items) {
        let whole = delivered(items);
        assert(whole.take(seen.len() as int) =~= seen);
        lemma_finished_stays(seen, whole);
        lemma_listed_holds_finished(whole);
        assert(!valid_utf8(listed(whole)[last]));
    }
    assert forall|i: int| #[trigger] fails_at(items, i) implies !all_valid(
        finished(delivered(items.take(i))),
    ) by {
        let part = delivered(items.take(i));
        assert(part.take(seen.len() as int) =~= seen);
        lemma_finished_stays(seen, part);
        assert(!valid_utf8(finished(part)[last]));
    }
}

} // verus!
