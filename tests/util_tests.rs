use lothaire::util::{parse_bool, parse_int};

#[test]
fn parse_int_test_success() {
    let result = parse_int(Some("3")).unwrap();
    assert_eq!(result, Some(3));
    let result = parse_int(Some("42")).unwrap();
    assert_eq!(result, Some(42));
    let result = parse_int(None).unwrap();
    assert!(result.is_none());
}

#[test]
fn parse_int_test_error() {
    let result = parse_int(Some("hello"));
    assert!(result.is_err());
    let result = parse_int(Some("1.3"));
    assert!(result.is_err());
}

#[test]
fn parse_bool_test_success() {
    let result = parse_bool(Some("true")).unwrap();
    assert_eq!(result, Some(true));
    let result = parse_bool(Some("false")).unwrap();
    assert_eq!(result, Some(false));
    let result = parse_bool(None).unwrap();
    assert!(result.is_none());
}

#[test]
fn parse_bool_test_error() {
    let result = parse_bool(Some("hello"));
    assert!(result.is_err());
    let result = parse_bool(Some("1"));
    assert!(result.is_err());
}

#[test]
fn parse_int_signs_and_range() {
    assert_eq!(parse_int(Some("+7")).unwrap(), Some(7));
    assert_eq!(parse_int(Some("-12")).unwrap(), Some(-12));
    assert_eq!(parse_int(Some("2147483647")).unwrap(), Some(i32::MAX));
    assert_eq!(parse_int(Some("-2147483648")).unwrap(), Some(i32::MIN));
    assert!(parse_int(Some("2147483648")).is_err());
    assert!(parse_int(Some("")).is_err());
    assert!(parse_int(Some("-")).is_err());
    assert!(parse_int(Some(" 1")).is_err());
}

#[test]
fn parse_bool_is_case_sensitive() {
    assert!(parse_bool(Some("True")).is_err());
    assert!(parse_bool(Some("")).is_err());
}
