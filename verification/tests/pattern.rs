use rusty_core::pattern::find_pattern;
use rusty_core::Error;

#[test]
fn finds_exact_pattern() {
    let data = [0x00u8, 0x01, 0x60, 0x81, 0xaa, 0xbb, 0xcc];
    let off = find_pattern(&data, "60 81 AA BB CC").unwrap();
    assert_eq!(off, 2);
}

#[test]
fn finds_wildcard_pattern() {
    let data = [0x00u8, 0x01, 0x60, 0x81, 0xaa, 0xbb, 0xcc];
    let off = find_pattern(&data, "60 ?? AA BB ??");
    assert!(matches!(off, Ok(2)));
}

#[test]
fn missing_pattern_is_error() {
    let data = [0x00u8; 8];
    assert!(find_pattern(&data, "DE AD BE EF").is_err());
}

#[test]
fn empty_pattern_is_error() {
    assert!(find_pattern(&[0u8; 4], "").is_err());
}

#[test]
fn finds_first_of_several_matches() {
    let data = [0xaau8, 0xbb, 0xaa, 0xbb];
    assert!(matches!(find_pattern(&data, "AA BB"), Ok(0)));
    assert!(matches!(find_pattern(&data, "?? BB"), Ok(0)));
    assert!(matches!(find_pattern(&data, "BB AA"), Ok(1)));
}

#[test]
fn pattern_longer_than_data_is_not_found() {
    assert!(matches!(find_pattern(&[0x60u8], "60 81"), Err(Error::PatternNotFound)));
}

#[test]
fn malformed_patterns_are_rejected() {
    match find_pattern(&[0u8; 4], "6") {
        Err(Error::Unpack(m)) => assert_eq!(m, "malformed pattern length"),
        _ => panic!("expected a malformed pattern error"),
    }
    match find_pattern(&[0u8; 4], "ZZ") {
        Err(Error::Unpack(m)) => assert_eq!(m, "invalid pattern byte 'ZZ'"),
        _ => panic!("expected an invalid byte error"),
    }
}
