use aheui::text::{int_to_chars, parse_int, split_lines};

fn chars(s: &str) -> Vec<char> {
    s.chars().collect()
}

fn string(v: &[char]) -> String {
    v.iter().collect()
}

#[test]
fn renders_decimal_text() {
    assert_eq!(string(&int_to_chars(0)), "0");
    assert_eq!(string(&int_to_chars(2)), "2");
    assert_eq!(string(&int_to_chars(10)), "10");
    assert_eq!(string(&int_to_chars(-123)), "-123");
    assert_eq!(string(&int_to_chars(2147483647)), "2147483647");
    assert_eq!(string(&int_to_chars(-2147483648)), "-2147483648");
}

#[test]
fn parses_plain_and_signed_numbers() {
    assert_eq!(parse_int(&chars("42")), 42);
    assert_eq!(parse_int(&chars("  42  \n")), 42);
    assert_eq!(parse_int(&chars("-13")), -13);
    assert_eq!(parse_int(&chars("+7")), 7);
    assert_eq!(parse_int(&chars("0")), 0);
}

#[test]
fn parse_defaults_to_zero_on_failure() {
    assert_eq!(parse_int(&chars("")), 0);
    assert_eq!(parse_int(&chars("   ")), 0);
    assert_eq!(parse_int(&chars("abc")), 0);
    assert_eq!(parse_int(&chars("12a")), 0);
    assert_eq!(parse_int(&chars("1 2")), 0);
    assert_eq!(parse_int(&chars("-")), 0);
    assert_eq!(parse_int(&chars("+")), 0);
}

#[test]
fn parse_respects_value_bounds() {
    assert_eq!(parse_int(&chars("2147483647")), 2147483647);
    assert_eq!(parse_int(&chars("2147483648")), 0);
    assert_eq!(parse_int(&chars("-2147483648")), -2147483648);
    assert_eq!(parse_int(&chars("-2147483649")), 0);
    assert_eq!(parse_int(&chars("99999999999999999999")), 0);
    assert_eq!(parse_int(&chars("-99999999999999999999")), 0);
    assert_eq!(parse_int(&chars("0000000000000000000042")), 42);
}

#[test]
fn splits_lines_like_source_text() {
    let split = |s: &str| -> Vec<String> {
        split_lines(&chars(s)).iter().map(|l| string(l)).collect()
    };
    assert_eq!(split(""), Vec::<String>::new());
    assert_eq!(split("a"), vec!["a"]);
    assert_eq!(split("a\nb"), vec!["a", "b"]);
    assert_eq!(split("a\nb\n"), vec!["a", "b"]);
    assert_eq!(split("a\r\nb\r\n"), vec!["a", "b"]);
    assert_eq!(split("\n"), vec![""]);
    assert_eq!(split("\n\n"), vec!["", ""]);
    assert_eq!(split("a\n\nb"), vec!["a", "", "b"]);
}
