use tailer::args::{parse_args, parse_count, ArgsResult};
use tailer::console::setup_windows_console;

fn to_args(words: &[&str]) -> Vec<Vec<u8>> {
    words.iter().map(|w| w.as_bytes().to_vec()).collect()
}

#[test]
fn no_arguments_prints_usage() {
    assert!(matches!(parse_args(&to_args(&["prog"])), ArgsResult::Usage));
    assert!(matches!(parse_args(&to_args(&[])), ArgsResult::Usage));
}

#[test]
fn filename_alone_uses_defaults() {
    match parse_args(&to_args(&["prog", "log.txt"])) {
        ArgsResult::Run(o) => {
            assert_eq!(o.filename, b"log.txt".to_vec());
            assert!(!o.follow);
            assert_eq!(o.num_lines, 10);
            assert!(!o.retry);
        }
        _ => panic!("expected a run"),
    }
}

#[test]
fn all_flags_recognized() {
    match parse_args(&to_args(&["prog", "log.txt", "-f", "-n", "5", "--retry"])) {
        ArgsResult::Run(o) => {
            assert_eq!(o.filename, b"log.txt".to_vec());
            assert!(o.follow);
            assert_eq!(o.num_lines, 5);
            assert!(o.retry);
        }
        _ => panic!("expected a run"),
    }
}

#[test]
fn later_count_overrides_earlier() {
    match parse_args(&to_args(&["prog", "f", "-n", "3", "-n", "7"])) {
        ArgsResult::Run(o) => assert_eq!(o.num_lines, 7),
        _ => panic!("expected a run"),
    }
}

#[test]
fn invalid_count_reported_with_its_value() {
    match parse_args(&to_args(&["prog", "f", "-n", "abc"])) {
        ArgsResult::InvalidCount(v) => assert_eq!(v, b"abc".to_vec()),
        _ => panic!("expected an invalid count"),
    }
    assert!(matches!(
        parse_args(&to_args(&["prog", "f", "-n", "12x"])),
        ArgsResult::InvalidCount(_)
    ));
    assert!(matches!(
        parse_args(&to_args(&["prog", "f", "-n", "-5"])),
        ArgsResult::InvalidCount(_)
    ));
    assert!(matches!(
        parse_args(&to_args(&["prog", "f", "-n", ""])),
        ArgsResult::InvalidCount(_)
    ));
}

#[test]
fn count_missing_its_value() {
    assert!(matches!(
        parse_args(&to_args(&["prog", "f", "-n"])),
        ArgsResult::MissingCount
    ));
}

#[test]
fn unknown_flag_reported_with_its_spelling() {
    match parse_args(&to_args(&["prog", "f", "-x"])) {
        ArgsResult::UnknownFlag(v) => assert_eq!(v, b"-x".to_vec()),
        _ => panic!("expected an unknown flag"),
    }
    assert!(matches!(
        parse_args(&to_args(&["prog", "f", "--follow"])),
        ArgsResult::UnknownFlag(_)
    ));
}

#[test]
fn count_values_parse_exactly() {
    assert_eq!(parse_count(&b"0".to_vec()), Some(0));
    assert_eq!(parse_count(&b"10".to_vec()), Some(10));
    assert_eq!(parse_count(&b"007".to_vec()), Some(7));
    assert_eq!(parse_count(&b"+7".to_vec()), Some(7));
    assert_eq!(parse_count(&b"".to_vec()), None);
    assert_eq!(parse_count(&b"+".to_vec()), None);
    assert_eq!(parse_count(&b"1 2".to_vec()), None);
    assert_eq!(parse_count(&b"3.5".to_vec()), None);
}

#[test]
fn count_overflow_rejected() {
    let max = usize::MAX.to_string();
    assert_eq!(parse_count(&max.as_bytes().to_vec()), Some(usize::MAX));
    let too_big = format!("{}0", max);
    assert_eq!(parse_count(&too_big.as_bytes().to_vec()), None);
    assert_eq!(
        parse_count(&b"99999999999999999999999999999".to_vec()),
        None
    );
}

#[test]
fn parse_matches_standard_integer_parsing() {
    for s in ["0", "42", "+1", "1000000", "abc", "", "+", "4 ", " 4", "-1"] {
        let expected = s.parse::<usize>().ok();
        assert_eq!(parse_count(&s.as_bytes().to_vec()), expected);
    }
}

#[test]
fn console_setup_always_succeeds() {
    assert!(setup_windows_console().is_ok());
}
