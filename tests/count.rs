use linetools::count::parse_positive_int;

#[test]
fn test_parse_positive_int() {
    let res = parse_positive_int("3");
    assert!(res.is_ok());
    assert_eq!(res.unwrap(), 3);

    let res = parse_positive_int("foo");
    assert!(res.is_err());
    assert_eq!(res.unwrap_err().to_string(), "foo".to_string());

    let res = parse_positive_int("0");
    assert!(res.is_err());
    assert_eq!(res.unwrap_err().to_string(), "0".to_string());
}

#[test]
fn positive_counts_parse_to_their_value() {
    assert_eq!(parse_positive_int("1"), Ok(1));
    assert_eq!(parse_positive_int("10"), Ok(10));
    assert_eq!(parse_positive_int("007"), Ok(7));
    assert_eq!(parse_positive_int("+42"), Ok(42));
    assert_eq!(parse_positive_int("18446744073709551615"), Ok(usize::MAX));
}

#[test]
fn malformed_counts_are_refused_with_their_text() {
    for s in ["", "+", "-1", " 5", "5 ", "1e3", "12a", "00", "18446744073709551616", "99999999999999999999999"] {
        assert_eq!(parse_positive_int(s), Err(s.to_string()));
    }
}
