use rust_wc::options::{load_files_from_iter, Error, Options, Parsed};
use std::io;

#[test]
fn defaults() {
    let args = vec!["test", "file"];
    let opts = Options::from_iter(&args).unwrap();
    assert!(opts.lines);
    assert!(opts.words);
    assert!(opts.bytes);
    assert_eq!(opts.files[0], "file");
}

#[test]
fn args_bytes() {
    {
        let args = vec!["test", "-c"];
        let opts = Options::from_iter(&args).unwrap();
        assert!(opts.bytes);
        assert!(!opts.lines);
        assert!(!opts.words);
        assert!(!opts.chars);
        assert!(!opts.max_line);
        assert!(opts.only_bytes());
    }

    {
        let args = vec!["test", "--bytes"];
        let opts = Options::from_iter(&args).unwrap();
        assert!(opts.bytes);
        assert!(!opts.lines);
        assert!(!opts.words);
        assert!(!opts.chars);
        assert!(!opts.max_line);
        assert!(opts.only_bytes());
    }
}

#[test]
fn files0_from_with_files() {
    let args = vec!["test", "--files0-from", "file", "other-file"];
    match Options::from_iter(&args) {
        Err(Error::Files0FromWithFiles) => {} // do nothing, this error is expected
        Ok(_) => panic!("did not expect this to succeed"),
        Err(e) => panic!("did not expect error {}", e.message("test", "0.1.0")),
    }
}

fn vec_from_string(s: &str) -> Vec<io::Result<u8>> {
    s.bytes().map(|c| Ok(c)).collect()
}

#[test]
fn files0_from_no_null_term() {
    let vec = load_files_from_iter(vec_from_string("a\0b\0c").into_iter()).unwrap();
    assert_eq!(vec.len(), 3);
    assert_eq!(vec[0], "a");
    assert_eq!(vec[1], "b");
    assert_eq!(vec[2], "c");
}

#[test]
fn files0_from_one_item() {
    let vec = load_files_from_iter(vec_from_string("one").into_iter()).unwrap();
    assert_eq!(vec.len(), 1);
    assert_eq!(vec[0], "one");
}

#[test]
fn files0_from_null_term() {
    let vec = load_files_from_iter(vec_from_string("a\0b\0c\0").into_iter()).unwrap();
    assert_eq!(vec.len(), 3);
    assert_eq!(vec[0], "a");
    assert_eq!(vec[1], "b");
    assert_eq!(vec[2], "c");
}

#[test]
fn files0_from_empty() {
    let vec = load_files_from_iter(vec_from_string("").into_iter()).unwrap();
    assert_eq!(vec.len(), 1);
    assert_eq!(vec[0], "");
}

#[test]
fn files0_from_empty_names() {
    let vec = load_files_from_iter(vec_from_string("\0").into_iter()).unwrap();
    assert_eq!(vec, vec![""]);
    let vec = load_files_from_iter(vec_from_string("\0\0a").into_iter()).unwrap();
    assert_eq!(vec, vec!["", "", "a"]);
    let vec = load_files_from_iter(vec_from_string("é\0💖").into_iter()).unwrap();
    assert_eq!(vec, vec!["é", "💖"]);
}

#[test]
fn files0_from_invalid_utf8() {
    let bytes: Vec<io::Result<u8>> = vec![Ok(b'a'), Ok(0), Ok(0xFF), Ok(0), Ok(b'b')];
    assert!(matches!(load_files_from_iter(bytes.into_iter()), Err(Error::Utf8(_))));
    let bytes: Vec<io::Result<u8>> = vec![Ok(b'a'), Ok(0), Ok(0xC3)];
    assert!(matches!(load_files_from_iter(bytes.into_iter()), Err(Error::Utf8(_))));
}

#[test]
fn files0_from_failed_read() {
    let bytes: Vec<io::Result<u8>> = vec![
        Ok(b'a'),
        Ok(0),
        Ok(0xFF),
        Err(io::Error::new(io::ErrorKind::PermissionDenied, "denied")),
        Ok(0),
    ];
    match load_files_from_iter(bytes.into_iter()) {
        Err(Error::Io(e)) => assert_eq!(e.kind(), io::ErrorKind::PermissionDenied),
        other => panic!("{:?}", other),
    }
    // the name that is no UTF-8 ends before the read fails
    let bytes: Vec<io::Result<u8>> = vec![
        Ok(0xFF),
        Ok(0),
        Err(io::Error::new(io::ErrorKind::PermissionDenied, "denied")),
    ];
    assert!(matches!(load_files_from_iter(bytes.into_iter()), Err(Error::Utf8(_))));
}

#[test]
fn every_flag_is_known() {
    let opts = Options::from_iter(&["wc", "-c", "-m", "-l", "-L", "-w", "a", "b"]).unwrap();
    assert!(opts.bytes && opts.chars && opts.lines && opts.max_line && opts.words);
    assert_eq!(opts.files, vec!["a", "b"]);
    assert_eq!(opts.files0_from, None);
    assert!(!opts.only_bytes());
    let opts = Options::from_iter(&[
        "wc",
        "--bytes",
        "--chars",
        "--lines",
        "--max-line-length",
        "--words",
    ])
    .unwrap();
    assert!(opts.bytes && opts.chars && opts.lines && opts.max_line && opts.words);
    assert!(opts.files.is_empty());
    let opts = Options::from_iter(&["wc", "-lw", "x"]).unwrap();
    assert!(opts.lines && opts.words && !opts.bytes && !opts.chars && !opts.max_line);
}

#[test]
fn first_argument_is_the_program() {
    let opts = Options::from_iter(&["-c"]).unwrap();
    assert!(opts.lines && opts.words && opts.bytes && !opts.chars && !opts.max_line);
    assert!(opts.files.is_empty());
    let none: Vec<&str> = Vec::new();
    let opts = Options::from_iter(&none).unwrap();
    assert!(opts.lines && opts.words && opts.bytes);
    assert!(opts.files.is_empty());
}

#[test]
fn help_and_version() {
    assert!(matches!(Options::from_iter(&["wc", "-h"]), Err(Error::Usage)));
    assert!(matches!(Options::from_iter(&["wc", "--help", "file"]), Err(Error::Usage)));
    assert!(matches!(Options::from_iter(&["wc", "-v"]), Err(Error::Version)));
    assert!(matches!(Options::from_iter(&["wc", "--version"]), Err(Error::Version)));
    assert!(matches!(Options::from_iter(&["wc", "-v", "-h"]), Err(Error::Usage)));
    assert!(matches!(
        Options::from_iter(&["wc", "-h", "--files0-from", "list", "file"]),
        Err(Error::Usage)
    ));
}

#[test]
fn refused_arguments() {
    match Options::from_iter(&["wc", "-x"]) {
        Err(Error::Getopts(fail)) => {
            assert_eq!(fail, getopts::Fail::UnrecognizedOption("x".to_string()))
        }
        other => panic!("{:?}", other),
    }
    match Options::from_iter(&["wc", "--files0-from"]) {
        Err(Error::Getopts(fail)) => {
            assert_eq!(fail, getopts::Fail::ArgumentMissing("files0-from".to_string()))
        }
        other => panic!("{:?}", other),
    }
    match Options::from_iter(&["wc", "-c", "--bytes"]) {
        Err(Error::Getopts(fail)) => {
            assert_eq!(fail, getopts::Fail::OptionDuplicated("bytes".to_string()))
        }
        other => panic!("{:?}", other),
    }
    match Options::test_args(vec!["--lines=3"]) {
        Err(Error::Getopts(fail)) => {
            assert_eq!(fail, getopts::Fail::UnexpectedArgument("lines".to_string()))
        }
        other => panic!("{:?}", other),
    }
}

#[test]
fn files0_from_is_left_to_be_read() {
    let opts = Options::from_iter(&["wc", "-l", "--files0-from", "list"]).unwrap();
    assert_eq!(opts.files0_from, Some("list".to_string()));
    assert!(opts.files.is_empty());
    assert!(opts.lines && !opts.words && !opts.bytes);
    let opts = Options::from_iter(&["wc", "--files0-from=-"]).unwrap();
    assert_eq!(opts.files0_from, Some("-".to_string()));

    let files = load_files_from_iter(vec_from_string("a\0b\0").into_iter()).unwrap();
    let opts = opts.with_files(files);
    assert_eq!(opts.files, vec!["a", "b"]);
    assert_eq!(opts.files0_from, None);
    assert!(opts.lines && opts.words && opts.bytes && !opts.chars && !opts.max_line);
}

#[test]
fn dashes_and_free_arguments() {
    let opts = Options::test_args(vec!["-", "a", "--", "-c"]).unwrap();
    assert_eq!(opts.files, vec!["-", "a", "-c"]);
    assert!(opts.lines && opts.words && opts.bytes);
    let opts = Options::test_args(vec!["a", "-m", "b"]).unwrap();
    assert_eq!(opts.files, vec!["a", "b"]);
    assert!(opts.chars && !opts.bytes);
}

fn asked() -> Parsed {
    Parsed {
        help: false,
        version: false,
        bytes: false,
        chars: false,
        lines: false,
        max_line: false,
        words: false,
        files0_from: None,
        free: Vec::new(),
    }
}

#[test]
fn parsed_request_decides() {
    let opts = Options::from_parsed(asked()).unwrap();
    assert!(opts.lines && opts.words && opts.bytes && !opts.chars && !opts.max_line);
    assert!(opts.files.is_empty());
    assert_eq!(opts.files0_from, None);

    let opts = Options::from_parsed(Parsed { max_line: true, ..asked() }).unwrap();
    assert!(!opts.lines && !opts.words && !opts.bytes && !opts.chars && opts.max_line);

    let opts = Options::from_parsed(Parsed {
        chars: true,
        free: vec!["a".to_string(), "b".to_string()],
        ..asked()
    })
    .unwrap();
    assert!(opts.chars && !opts.bytes);
    assert_eq!(opts.files, vec!["a", "b"]);

    assert!(matches!(
        Options::from_parsed(Parsed { help: true, version: true, ..asked() }),
        Err(Error::Usage)
    ));
    assert!(matches!(
        Options::from_parsed(Parsed { version: true, ..asked() }),
        Err(Error::Version)
    ));
    assert!(matches!(
        Options::from_parsed(Parsed {
            files0_from: Some("list".to_string()),
            free: vec!["a".to_string()],
            ..asked()
        }),
        Err(Error::Files0FromWithFiles)
    ));
    assert!(matches!(
        Options::from_parsed(Parsed {
            version: true,
            files0_from: Some("list".to_string()),
            free: vec!["a".to_string()],
            ..asked()
        }),
        Err(Error::Version)
    ));
    let opts = Options::from_parsed(Parsed {
        bytes: true,
        files0_from: Some("list".to_string()),
        ..asked()
    })
    .unwrap();
    assert_eq!(opts.files0_from, Some("list".to_string()));
    assert!(opts.only_bytes());
}

#[test]
fn only_bytes_needs_bytes_alone() {
    let mut opts = Options::test_args(vec!["-c"]).unwrap();
    assert!(opts.only_bytes());
    opts.max_line = true;
    assert!(!opts.only_bytes());
    opts.max_line = false;
    opts.bytes = false;
    assert!(!opts.only_bytes());
    assert!(!Options::test_empty().unwrap().only_bytes());
}

#[test]
fn usage_names_the_program_and_the_options() {
    let text = Options::usage("wc");
    assert!(text.starts_with(
        "Usage:\n  wc [OPTION]... [FILE]...\n  wc [OPTION]... --files0-from F\n\nPrint newline,"
    ));
    assert!(text.contains("followed by the file name.\n\nOptions:\n"));
    assert!(text.contains("    -c, --bytes         print the byte counts\n"));
    assert!(text.contains("    -L, --max-line-length \n"));
    assert!(text.contains("        --files0-from F "));
    assert!(text.contains("    -v, --version       output version information and exit\n"));
    assert!(text.ends_with("\n"));
    assert_ne!(Options::usage("wc"), Options::usage("rust-wc"));
}

#[test]
fn version_names_the_program() {
    assert_eq!(Options::version("rust-wc", "0.1.0"), "rust-wc v0.1.0");
    assert_eq!(Options::version("", ""), " v");
}

#[test]
fn messages_say_what_is_wrong() {
    assert_eq!(Error::Usage.message("wc", "1.2.3"), Options::usage("wc"));
    assert_eq!(Error::Version.message("wc", "1.2.3"), "wc v1.2.3");
    assert_eq!(
        Error::Files0FromWithFiles.message("wc", "1.2.3"),
        "invalid arguments: can't use --files0-from with a FILEs list"
    );
    let refused = Options::from_iter(&["wc", "-x"]).unwrap_err();
    assert_eq!(refused.message("wc", "1.2.3"), "invalid arguments: Unrecognized option: 'x'");
    let unread = Error::from(io::Error::new(io::ErrorKind::PermissionDenied, "denied"));
    assert_eq!(unread.message("wc", "1.2.3"), "error reading file list: denied");
    let bytes: Vec<io::Result<u8>> = vec![Ok(0xFF), Ok(0)];
    let invalid = load_files_from_iter(bytes.into_iter()).unwrap_err();
    let utf8 = String::from_utf8(vec![0xFF]).unwrap_err();
    assert_eq!(
        invalid.message("wc", "1.2.3"),
        format!("error reading file list, invalid utf8: {}", utf8)
    );
}

#[test]
fn errors_come_from_what_lies_below() {
    assert!(matches!(
        Error::from(getopts::Fail::OptionMissing("x".to_string())),
        Error::Getopts(getopts::Fail::OptionMissing(_))
    ));
    assert!(matches!(
        Error::from(io::Error::new(io::ErrorKind::NotFound, "gone")),
        Error::Io(_)
    ));
    assert!(matches!(Error::from(String::from_utf8(vec![0xC0]).unwrap_err()), Error::Utf8(_)));
}
