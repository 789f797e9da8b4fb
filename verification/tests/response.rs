use flow_monitor::response::{
    decode_fields, is_numeric_field, is_numeric_response, is_whitespace, parse_response,
    split_fields, ParseError,
};

#[test]
fn white_space_is_what_unicode_says_it_is() {
    for code in 0..=0x10ffffu32 {
        if let Some(c) = char::from_u32(code) {
            assert_eq!(is_whitespace(c), c.is_whitespace(), "U+{:04X}", code);
        }
    }
}

#[test]
fn fields_are_the_runs_between_white_space() {
    assert_eq!(split_fields("12.5 7.25"), vec!["12.5", "7.25"]);
    assert_eq!(split_fields("  a\tb\r\n c  "), vec!["a", "b", "c"]);
    assert_eq!(split_fields("one"), vec!["one"]);
    assert_eq!(split_fields("x\u{a0}y\u{3000}z"), vec!["x", "y", "z"]);
    assert_eq!(split_fields(""), Vec::<String>::new());
    assert_eq!(split_fields(" \n\t "), Vec::<String>::new());
}

#[test]
fn splitting_agrees_with_the_standard_library() {
    let samples = [
        "",
        " ",
        "a",
        " a",
        "a ",
        "a b",
        "  14.7   14.6\t14.8\n",
        "1 2 3 4 5 6 7 8 9 10 11 12 13 14 15",
        "é  ü\u{2003}ß",
        "\u{85}x\u{1680}y\u{2028}\u{2029}z\u{202f}\u{205f}",
    ];
    for sample in samples {
        let expected: Vec<String> = sample.split_whitespace().map(|s| s.to_string()).collect();
        assert_eq!(split_fields(sample), expected, "{:?}", sample);
    }
}

#[test]
fn a_response_is_parsed_last_field_first() {
    assert_eq!(parse_response("1 2 3"), vec!["3", "2", "1"]);
    assert_eq!(parse_response(" 14.7\t14.6 \n"), vec!["14.6", "14.7"]);
    assert_eq!(parse_response("solo"), vec!["solo"]);
    assert_eq!(parse_response(""), Vec::<String>::new());
}

#[test]
fn numerals_are_recognised() {
    for field in [
        "0", "7", "12.5", "7.25", "-3", "+3", "1.", ".5", "-.5", "+0.0", "1e5", "1E5", "1e+5",
        "1e-5", "1.e3", ".5E-10", "-12.75e+2", "007", "123456789012345678901234567890",
    ] {
        assert!(is_numeric_field(field), "{:?}", field);
        assert!(field.parse::<f64>().is_ok(), "{:?}", field);
    }
}

#[test]
fn what_is_no_numeral_is_rejected() {
    for field in [
        "", ".", "+", "-", "+.", "e5", "1e", "1e+", "1e-", "1e5.0", "1.2.3", "1..2", "--1", "+-1",
        "1-", "1+2", "1 2", " 1", "1 ", "err", "n/a", "inf", "-inf", "infinity", "NaN", "nan",
        "0x10", "1_000", "1,5", "1e5e5", "1f", "١٢", "１２",
    ] {
        assert!(!is_numeric_field(field), "{:?}", field);
    }
}

#[test]
fn a_numeric_response_decodes_into_its_fields() {
    assert_eq!(decode_fields("12.5"), Ok(vec!["12.5".to_string()]));
    assert_eq!(
        decode_fields(" 14.7 -0.3\t1e2\n"),
        Ok(vec!["14.7".to_string(), "-0.3".to_string(), "1e2".to_string()])
    );
    assert!(is_numeric_response("12.5\n"));
    assert!(is_numeric_response("1 2 3"));
}

#[test]
fn an_empty_response_is_a_parse_error() {
    assert_eq!(decode_fields(""), Err(ParseError::Empty));
    assert_eq!(decode_fields(" \r\n"), Err(ParseError::Empty));
    assert!(!is_numeric_response(""));
}

#[test]
fn the_first_malformed_field_is_named() {
    assert_eq!(decode_fields("err"), Err(ParseError::NotANumber(0)));
    assert_eq!(decode_fields("1 2 x 4 y"), Err(ParseError::NotANumber(2)));
    assert_eq!(decode_fields("1 2 3 4 nan"), Err(ParseError::NotANumber(4)));
    assert!(!is_numeric_response("1 2 x"));
}
