use git_traverse_tree::args::parse_i32;
use git_traverse_tree::args::read_step_count;
use git_traverse_tree::args::ArgError;

fn bytes(s: &str) -> Vec<u8> {
    s.as_bytes().to_vec()
}

#[test]
fn parses_plain_numbers() {
    assert_eq!(parse_i32(b"0"), Some(0));
    assert_eq!(parse_i32(b"42"), Some(42));
    assert_eq!(parse_i32(b"007"), Some(7));
}

#[test]
fn parses_signed_numbers() {
    assert_eq!(parse_i32(b"+7"), Some(7));
    assert_eq!(parse_i32(b"-3"), Some(-3));
    assert_eq!(parse_i32(b"-0"), Some(0));
}

#[test]
fn parses_extreme_values() {
    assert_eq!(parse_i32(b"2147483647"), Some(i32::MAX));
    assert_eq!(parse_i32(b"-2147483648"), Some(i32::MIN));
}

#[test]
fn rejects_out_of_range_values() {
    assert_eq!(parse_i32(b"2147483648"), None);
    assert_eq!(parse_i32(b"-2147483649"), None);
    assert_eq!(parse_i32(b"99999999999999999999999"), None);
}

#[test]
fn rejects_non_numbers() {
    assert_eq!(parse_i32(b""), None);
    assert_eq!(parse_i32(b"-"), None);
    assert_eq!(parse_i32(b"+"), None);
    assert_eq!(parse_i32(b"abc"), None);
    assert_eq!(parse_i32(b"12x"), None);
    assert_eq!(parse_i32(b" 1"), None);
    assert_eq!(parse_i32(b"1 "), None);
    assert_eq!(parse_i32(b"1.5"), None);
    assert_eq!(parse_i32(b"--1"), None);
}

#[test]
fn matches_std_parsing() {
    let cases = [
        "0", "42", "-3", "+7", "007", "2147483647", "-2147483648", "2147483648", "-2147483649",
        "", "-", "+", "abc", "12x", " 1", "1 ", "1_000", "0x10",
    ];
    for case in cases {
        assert_eq!(parse_i32(case.as_bytes()), case.parse::<i32>().ok(), "case {:?}", case);
    }
}

#[test]
fn step_count_needs_exactly_one_argument() {
    let none: Vec<Vec<u8>> = vec![bytes("prog")];
    assert_eq!(read_step_count(&none), Err(ArgError::WrongCount { given: 0 }));

    let two: Vec<Vec<u8>> = vec![bytes("prog"), bytes("-1"), bytes("-2")];
    assert_eq!(read_step_count(&two), Err(ArgError::WrongCount { given: 2 }));

    let empty: Vec<Vec<u8>> = vec![];
    assert_eq!(read_step_count(&empty), Err(ArgError::WrongCount { given: 0 }));
}

#[test]
fn step_count_must_be_an_integer() {
    let args: Vec<Vec<u8>> = vec![bytes("prog"), bytes("two")];
    assert_eq!(read_step_count(&args), Err(ArgError::NotAnInteger));

    let args: Vec<Vec<u8>> = vec![bytes("prog"), bytes("2147483648")];
    assert_eq!(read_step_count(&args), Err(ArgError::NotAnInteger));
}

#[test]
fn step_count_reads_the_one_argument() {
    let args: Vec<Vec<u8>> = vec![bytes("prog"), bytes("-2")];
    assert_eq!(read_step_count(&args), Ok(-2));

    let args: Vec<Vec<u8>> = vec![bytes("prog"), bytes("0")];
    assert_eq!(read_step_count(&args), Ok(0));
}
