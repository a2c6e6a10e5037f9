use hekate_mobile::doctor::parse_javac_major;

#[test]
fn parses_modern_jdk_format() {
    assert_eq!(parse_javac_major("javac 17.0.5"), Some(17));
    assert_eq!(parse_javac_major("javac 21"), Some(21));
    assert_eq!(parse_javac_major("javac 22.0.1\n"), Some(22));
}

#[test]
fn parses_jdk_8_legacy_format() {
    assert_eq!(parse_javac_major("javac 1.8.0_392"), Some(8));
    assert_eq!(parse_javac_major("javac 1.7.0_80"), Some(7));
}

#[test]
fn returns_none_on_unparseable_input() {
    assert_eq!(parse_javac_major(""), None);
    assert_eq!(parse_javac_major("no version here"), None);
}

#[test]
fn javac_major_edge_cases() {
    // A bare `1` has no second component.
    assert_eq!(parse_javac_major("javac 1"), None);
    // Digits glued to a word do not start a token.
    assert_eq!(parse_javac_major("v17 javac 11.0.2"), Some(11));
    // The first digit token decides, even when it does not parse.
    assert_eq!(parse_javac_major("javac 17x 21"), None);
    // Overflowing a u32 is refused.
    assert_eq!(parse_javac_major("javac 99999999999"), None);
    assert_eq!(parse_javac_major("javac 4294967295"), Some(4294967295));
    // A `+` may lead the second component, as `u32::from_str` allows.
    assert_eq!(parse_javac_major("javac 1.+9"), Some(9));
    // Tabs and Unicode spaces separate tokens.
    assert_eq!(parse_javac_major("javac\t18"), Some(18));
    assert_eq!(parse_javac_major("javac\u{3000}19.1"), Some(19));
    assert_eq!(parse_javac_major("openjdk 17.0.9 2023-10-17"), Some(17));
}
