use therminal::decimal::{parse_decimal, push_decimal};
use therminal::text::{chars_of, is_whitespace, remove_whitespace, string_of};
use therminal::{parse_reading, ParseError, ReadingError, SensorFile};

fn file(path: &str, content: Option<&str>, label: Option<&str>) -> SensorFile {
    SensorFile {
        path: path.to_string(),
        content: content.map(|s| s.to_string()),
        label: label.map(|s| s.to_string()),
    }
}

fn number(text: &str) -> Result<u64, ParseError> {
    parse_decimal(&chars_of(text))
}

#[test]
fn number_with_newline_is_read_exactly() {
    let info = parse_reading(&file("/sys/class/thermal/thermal_zone0/temp", Some("45000\n"), None))
        .unwrap();
    assert_eq!(info.temp, 45000);
    assert_eq!(info.temp / 1000, 45);
    assert_eq!(info.temp % 1000, 0);
    assert_eq!(info.sensor, "/sys/class/thermal/thermal_zone0/temp");
    assert_eq!(info.kind, "");
    assert_eq!(info.name, "");
}

#[test]
fn number_with_trailing_spaces_is_read_exactly() {
    for (text, expected) in [
        ("0", 0u64),
        ("7 ", 7),
        ("52000", 52000),
        ("30123 \t\r\n", 30123),
        ("18446744073709551615\n\n", u64::MAX),
    ] {
        let info = parse_reading(&file("/x/temp", Some(text), None)).unwrap();
        assert_eq!(info.temp, expected);
    }
}

#[test]
fn white_space_is_removed_wherever_it_stands() {
    let info = parse_reading(&file("/x/temp", Some(" 4 5\n0\t0 0 "), None)).unwrap();
    assert_eq!(info.temp, 45000);
    assert_eq!(string_of(&remove_whitespace(&chars_of(" a b\n\tc\u{a0}d\u{3000} "))), "abcd");
    assert_eq!(string_of(&remove_whitespace(&chars_of(""))), "");
    assert_eq!(string_of(&remove_whitespace(&chars_of(" \n"))), "");
}

#[test]
fn white_space_is_what_the_standard_library_calls_so() {
    for code in 0u32..0x11000 {
        if let Some(c) = char::from_u32(code) {
            assert_eq!(is_whitespace(c), c.is_whitespace(), "code point {:x}", code);
        }
    }
}

#[test]
fn leading_plus_and_zeros_are_accepted() {
    assert_eq!(number("+45"), Ok(45));
    assert_eq!(number("007"), Ok(7));
    assert_eq!(number("+0"), Ok(0));
}

#[test]
fn empty_text_is_refused_as_empty() {
    assert_eq!(number(""), Err(ParseError::Empty));
    let r = parse_reading(&file("/x/temp", Some(" \n"), None));
    assert_eq!(r.err(), Some(ReadingError::Malformed(ParseError::Empty)));
    let r = parse_reading(&file("/x/temp", Some(""), None));
    assert_eq!(r.err(), Some(ReadingError::Malformed(ParseError::Empty)));
}

#[test]
fn text_that_is_no_number_is_refused_as_invalid() {
    for text in ["abc", "12a", "a12", "+", "-5", "-", "4.5", "1_000", "++1", "1+", "٣"] {
        assert_eq!(number(text), Err(ParseError::InvalidDigit), "{}", text);
    }
    let r = parse_reading(&file("/x/temp", Some("n/a\n"), None));
    assert_eq!(r.err(), Some(ReadingError::Malformed(ParseError::InvalidDigit)));
}

#[test]
fn number_above_the_limit_is_refused_as_overflow() {
    assert_eq!(number("18446744073709551615"), Ok(u64::MAX));
    assert_eq!(number("18446744073709551616"), Err(ParseError::Overflow));
    assert_eq!(number("99999999999999999999999"), Err(ParseError::Overflow));
    assert_eq!(number("99999999999999999999999x"), Err(ParseError::InvalidDigit));
    let r = parse_reading(&file("/x/temp", Some("18446744073709551616\n"), None));
    assert_eq!(r.err(), Some(ReadingError::Malformed(ParseError::Overflow)));
}

#[test]
fn numbers_are_read_as_the_standard_library_reads_them() {
    let texts = [
        "0",
        "1",
        "+1",
        "42",
        "0042",
        "18446744073709551615",
        "18446744073709551616",
        "",
        "+",
        "-1",
        "x",
        "1 2",
    ];
    for text in texts {
        assert_eq!(number(text).ok(), text.parse::<u64>().ok(), "{}", text);
    }
}

#[test]
fn unreadable_file_gives_no_reading() {
    let r = parse_reading(&file("/x/temp", None, Some("CPU")));
    assert_eq!(r.err(), Some(ReadingError::Unreadable));
}

#[test]
fn reading_carries_path_and_label() {
    let info = parse_reading(&file("/h/temp1_input", Some("30000\n"), Some("Core 0\n"))).unwrap();
    assert_eq!(info.temp, 30000);
    assert_eq!(info.sensor, "/h/temp1_input");
    assert_eq!(info.name, "Core0");
    assert_eq!(info.kind, "");
}

#[test]
fn written_numbers_read_back() {
    for n in [0u64, 1, 9, 10, 11, 99, 100, 101, 999, 1000, 123456789, u64::MAX - 1, u64::MAX] {
        let mut out = Vec::new();
        push_decimal(&mut out, n);
        assert_eq!(string_of(&out), n.to_string());
        assert_eq!(parse_decimal(&out), Ok(n));
    }
}

#[test]
fn written_number_follows_what_is_there() {
    let mut out = chars_of("t=");
    push_decimal(&mut out, 205);
    assert_eq!(string_of(&out), "t=205");
}

#[test]
fn characters_and_strings_convert_both_ways() {
    for text in ["", "a", "temp1_input", "grüße\t°C", "日本語"] {
        let chars = chars_of(text);
        assert_eq!(chars, text.chars().collect::<Vec<char>>());
        assert_eq!(string_of(&chars), text);
    }
}

#[test]
fn each_refusal_has_its_message() {
    assert_eq!(ParseError::Empty.message(), "cannot parse integer from empty string");
    assert_eq!(ParseError::InvalidDigit.message(), "invalid digit found in string");
    assert_eq!(ParseError::Overflow.message(), "number too large to fit in target type");
    assert_eq!(ParseError::Empty.message(), "".parse::<u64>().unwrap_err().to_string());
    assert_eq!(ParseError::InvalidDigit.message(), "x".parse::<u64>().unwrap_err().to_string());
    assert_eq!(
        ParseError::Overflow.message(),
        "18446744073709551616".parse::<u64>().unwrap_err().to_string()
    );
}
