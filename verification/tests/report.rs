use rust_wc::counter::Count;
use rust_wc::options::Options;
use rust_wc::report::{line_for, reads_stdin, total_after, total_line};

fn word() -> Count {
    Count { newlines: 1, words: 1, bytes: 5, chars: 5, max_line: 4 }
}

#[test]
fn counted_input_shows_its_counts() {
    let opts = Options::test_args(vec!["word.txt"]).unwrap();
    let result: Result<Count, String> = Ok(word());
    assert_eq!(line_for(&result, &opts, "word.txt"), " 1 1 5 word.txt");
}

#[test]
fn failed_input_shows_zeros() {
    let opts = Options::test_args(vec!["missing"]).unwrap();
    let result: Result<Count, String> = Err("No such file or directory".to_string());
    assert_eq!(line_for(&result, &opts, "missing"), " 0 0 0 missing");
    let opts = Options::test_args(vec!["missing", "word.txt"]).unwrap();
    assert_eq!(line_for(&result, &opts, "missing"), "       0       0       0 missing");
}

#[test]
fn total_takes_counted_inputs_only() {
    let total = Count::new();
    let first: Result<Count, String> = Ok(word());
    let second: Result<Count, String> = Err("denied".to_string());
    let third: Result<Count, String> =
        Ok(Count { newlines: 2, words: 3, bytes: 29, chars: 29, max_line: 15 });
    let total = total_after(total, &first).unwrap();
    assert_eq!(total, word());
    let total = total_after(total, &second).unwrap();
    assert_eq!(total, word());
    let total = total_after(total, &third).unwrap();
    assert_eq!(total, Count { newlines: 3, words: 4, bytes: 34, chars: 34, max_line: 19 });
}

#[test]
fn total_that_does_not_fit_is_none() {
    let most = Count { newlines: 0, words: 0, bytes: u64::MAX, chars: 0, max_line: 0 };
    let one: Result<Count, String> = Ok(Count { bytes: 1, ..Count::new() });
    assert_eq!(total_after(most, &one), None);
    let none: Result<Count, String> = Ok(Count::new());
    assert_eq!(total_after(most, &none), Some(most));
    let failed: Result<Count, String> = Err("denied".to_string());
    assert_eq!(total_after(most, &failed), Some(most));
}

#[test]
fn checked_add_tells_what_fits() {
    let a = Count { newlines: 1, words: 2, bytes: 3, chars: 4, max_line: 5 };
    let b = Count { newlines: 10, words: 20, bytes: 30, chars: 40, max_line: 50 };
    assert_eq!(a.checked_add(b), Some(a + b));
    assert_eq!(a.checked_add(Count::new()), Some(a));
    for field in 0..5 {
        let mut big = Count::new();
        match field {
            0 => big.newlines = u64::MAX,
            1 => big.words = u64::MAX - 1,
            2 => big.bytes = u64::MAX - 2,
            3 => big.chars = u64::MAX - 3,
            _ => big.max_line = u64::MAX - 4,
        }
        assert_eq!(a.checked_add(big), None);
        assert_eq!(big.checked_add(a), None);
        assert_eq!(big.checked_add(Count::new()), Some(big));
    }
    let edge = Count { bytes: u64::MAX - 3, ..Count::new() };
    assert_eq!(a.checked_add(edge).unwrap().bytes, u64::MAX);
}

#[test]
fn total_line_after_more_than_one_file() {
    let total = Count { newlines: 3, words: 4, bytes: 34, chars: 34, max_line: 19 };
    let none = Options::test_empty().unwrap();
    assert_eq!(total_line(&total, &none), None);
    let one = Options::test_args(vec!["a"]).unwrap();
    assert_eq!(total_line(&total, &one), None);
    let two = Options::test_args(vec!["a", "b"]).unwrap();
    assert_eq!(total_line(&total, &two), Some("       3       4      34 total".to_string()));
}

#[test]
fn stdin_is_read_without_files() {
    assert!(reads_stdin(&Options::test_empty().unwrap()));
    assert!(reads_stdin(&Options::test_args(vec!["-l"]).unwrap()));
    assert!(!reads_stdin(&Options::test_args(vec!["-"]).unwrap()));
    assert!(!reads_stdin(&Options::test_args(vec!["a", "b"]).unwrap()));
}
