use dialpwm::ui::{input_parse_update_mask, parse_mask};

fn std_reading(text: &str) -> Option<u8> {
    u8::from_str_radix(text, 2).ok()
}

#[test]
fn parse_mask_plain_binary() {
    assert_eq!(parse_mask("101"), Some(5));
    assert_eq!(parse_mask("0"), Some(0));
    assert_eq!(parse_mask("1"), Some(1));
    assert_eq!(parse_mask("11111111"), Some(255));
}

#[test]
fn parse_mask_leading_zeros_and_plus() {
    assert_eq!(parse_mask("0000000011"), Some(3));
    assert_eq!(parse_mask("+1"), Some(1));
    assert_eq!(parse_mask("+0001"), Some(1));
}

#[test]
fn parse_mask_rejects_overflow() {
    assert_eq!(parse_mask("100000000"), None);
    assert_eq!(parse_mask("111111111"), None);
    assert_eq!(parse_mask("1000000001x"), None);
}

#[test]
fn parse_mask_rejects_bad_text() {
    assert_eq!(parse_mask(""), None);
    assert_eq!(parse_mask("+"), None);
    assert_eq!(parse_mask("-1"), None);
    assert_eq!(parse_mask("2"), None);
    assert_eq!(parse_mask(" 1"), None);
    assert_eq!(parse_mask("1 "), None);
    assert_eq!(parse_mask("++1"), None);
    assert_eq!(parse_mask("1\u{e9}"), None);
}

#[test]
fn parse_mask_agrees_with_std() {
    let samples = [
        "", "+", "-", "0", "1", "10", "+10", "-10", "2", "012", "11111111", "011111111",
        "100000000", "0000000000000001", "abc", "1_0", "\u{663}", "+-1",
    ];
    for s in samples.iter() {
        assert_eq!(parse_mask(s), std_reading(s), "text {:?}", s);
    }
    for v in 0u32..600 {
        let s = format!("{:b}", v);
        assert_eq!(parse_mask(&s), std_reading(&s), "text {:?}", s);
    }
}

#[test]
fn input_parse_update_mask_stores_valid_mask() {
    let mut mask: u8 = 7;
    assert!(input_parse_update_mask("1000", &mut mask));
    assert_eq!(mask, 8);
}

#[test]
fn input_parse_update_mask_keeps_old_value_on_error() {
    let mut mask: u8 = 7;
    assert!(!input_parse_update_mask("12", &mut mask));
    assert_eq!(mask, 7);
    assert!(!input_parse_update_mask("", &mut mask));
    assert_eq!(mask, 7);
    assert!(!input_parse_update_mask("100000000", &mut mask));
    assert_eq!(mask, 7);
}
