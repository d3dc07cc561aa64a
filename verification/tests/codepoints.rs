use runebender_web::codepoints::{check_image_bytes, check_trace_fields, parse_codepoints, parse_hex};

#[test]
fn parses_common_unicode_forms() {
    assert_eq!(parse_codepoints(None).expect("none parses"), Vec::<char>::new());
    assert_eq!(
        parse_codepoints(Some("0023, U+0026")).expect("hex parses"),
        vec!['#', '&']
    );
}

#[test]
fn rejects_invalid_unicode() {
    let err = parse_codepoints(Some("not-hex")).expect_err("invalid hex rejected");
    assert!(err.contains("invalid unicode hex"));
}

#[test]
fn codepoint_list_errors_name_the_token() {
    assert_eq!(
        parse_codepoints(Some("41 zz 42")).unwrap_err(),
        "invalid unicode hex: zz"
    );
    assert_eq!(
        parse_codepoints(Some("u+D800")).unwrap_err(),
        "invalid unicode scalar value: u+D800"
    );
    assert_eq!(
        parse_codepoints(Some("110000")).unwrap_err(),
        "invalid unicode scalar value: 110000"
    );
    assert_eq!(
        parse_codepoints(Some("100000000")).unwrap_err(),
        "invalid unicode hex: 100000000"
    );
}

#[test]
fn codepoint_lists_accept_separators_and_plus_signs() {
    assert_eq!(parse_codepoints(Some("   ")).unwrap(), Vec::<char>::new());
    assert_eq!(parse_codepoints(Some(",,41,\t\n42 ,")).unwrap(), vec!['A', 'B']);
    assert_eq!(parse_codepoints(Some("+61 U++62")).unwrap(), vec!['a', 'b']);
    assert_eq!(parse_codepoints(Some("1F600")).unwrap(), vec!['\u{1F600}']);
    assert!(parse_codepoints(Some("+")).is_err());
    assert!(parse_codepoints(Some("U+")).is_err());
}

#[test]
fn hex_parsing_matches_from_str_radix() {
    for text in ["0", "ff", "FF", "+1a", "-1", "", "+", "ffffffff", "100000000", "g", "0x10"] {
        let chars: Vec<char> = text.chars().collect();
        assert_eq!(parse_hex(&chars), u32::from_str_radix(text, 16).ok(), "{text}");
    }
}

#[test]
fn trace_request_checks() {
    assert_eq!(check_image_bytes(&[]).unwrap_err(), "image bytes are empty");
    assert!(check_image_bytes(&[1, 2]).is_ok());
    assert_eq!(check_trace_fields(" \t", None).unwrap_err(), "glyph name is required");
    assert_eq!(check_trace_fields("a", Some("61")).unwrap(), vec!['a']);
    assert!(check_trace_fields("a", Some("xyz")).is_err());
}

#[test]
fn unicode_whitespace_separates_codepoints() {
    assert_eq!(
        parse_codepoints(Some("0041\u{3000}0042\u{2028}0043\u{a0}0044")).expect("list parses"),
        vec!['A', 'B', 'C', 'D']
    );
}
