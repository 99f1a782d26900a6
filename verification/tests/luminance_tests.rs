use vfd_dashboard::error::RequestError;
use vfd_dashboard::luminance::{parse_level, Brightness};

#[test]
fn level_is_the_number_cut_off_at_the_point() {
    assert_eq!(parse_level("100.0"), Some(100));
    assert_eq!(parse_level("100"), Some(100));
    assert_eq!(parse_level("0"), Some(0));
    assert_eq!(parse_level("0.9"), Some(0));
    assert_eq!(parse_level("42.999"), Some(42));
    assert_eq!(parse_level("007"), Some(7));
    assert_eq!(parse_level("254.99"), Some(254));
}

#[test]
fn level_is_clamped_to_the_display_range() {
    assert_eq!(parse_level("255"), Some(255));
    assert_eq!(parse_level("256"), Some(255));
    assert_eq!(parse_level("300.7"), Some(255));
    assert_eq!(parse_level("2550"), Some(255));
    assert_eq!(parse_level("99999999999999999999999999"), Some(255));
    assert_eq!(parse_level("-1"), Some(0));
    assert_eq!(parse_level("-300.5"), Some(0));
    assert_eq!(parse_level("-0"), Some(0));
}

#[test]
fn level_accepts_sign_and_bare_point_forms() {
    assert_eq!(parse_level("+12"), Some(12));
    assert_eq!(parse_level("5."), Some(5));
    assert_eq!(parse_level(".5"), Some(0));
    assert_eq!(parse_level("+.5"), Some(0));
    assert_eq!(parse_level("-.5"), Some(0));
}

#[test]
fn text_that_is_no_decimal_number_gives_no_level() {
    for text in ["", ".", "+", "-", "+.", "abc", "12a", "a12", "1.2.3", "1..2", " 5", "5 ", "1e2",
        "--5", "+-5", "unavailable", "1,5", "٣"] {
        assert_eq!(parse_level(text), None, "{:?}", text);
    }
}

#[test]
fn update_sets_the_level_that_the_state_asks_for() {
    let mut brightness = Brightness::new(100);
    assert_eq!(brightness.level, 100);
    assert_eq!(brightness.update(&Ok("180.0")), Some(180));
    assert_eq!(brightness.level, 180);
    assert_eq!(brightness.update(&Ok("1000")), Some(255));
    assert_eq!(brightness.level, 255);
}

#[test]
fn failed_luminance_fetch_leaves_brightness_unchanged() {
    let mut brightness = Brightness::new(100);
    let failed: Result<&str, RequestError> = Err(RequestError::RequestErr(reqwless::Error::Dns));
    assert_eq!(brightness.update(&failed), None);
    assert_eq!(brightness.level, 100);

    assert_eq!(brightness.update(&Ok("30")), Some(30));
    let failed: Result<&str, RequestError> =
        Err(RequestError::JsonErr(serde_json_core::de::Error::ExpectedColon));
    assert_eq!(brightness.update(&failed), None);
    assert_eq!(brightness.level, 30);
}

#[test]
fn unreadable_luminance_state_leaves_brightness_unchanged() {
    let mut brightness = Brightness::new(100);
    assert_eq!(brightness.update(&Ok("unavailable")), None);
    assert_eq!(brightness.level, 100);
}
