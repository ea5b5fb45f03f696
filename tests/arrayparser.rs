use tako::arraydef::TaskIdRange;
use tako::arrayparser::{parse_array_def, parse_uint, ArrayParseError};

#[test]
fn test_parse_uint() {
    assert_eq!(parse_uint("1019").unwrap(), 1019);
    assert_eq!(parse_uint("0").unwrap(), 0);
    assert!(parse_uint("").is_err());
    assert!(parse_uint("x").is_err());
}

#[test]
fn test_parse_array_def() {
    assert_eq!(
        parse_array_def("34").unwrap().iter().collect::<Vec<_>>(),
        vec![34]
    );
    assert_eq!(
        parse_array_def("34-40").unwrap().iter().collect::<Vec<_>>(),
        vec![34, 35, 36, 37, 38, 39, 40]
    );
    assert_eq!(
        parse_array_def("101-101")
            .unwrap()
            .iter()
            .collect::<Vec<_>>(),
        vec![101]
    );
    assert!(parse_array_def("101-100").is_err());
}

#[test]
fn range_new_iterates_in_order() {
    let r = TaskIdRange::new(34, 7);
    assert_eq!(r.iter().collect::<Vec<_>>(), vec![34, 35, 36, 37, 38, 39, 40]);
    assert_eq!(r.start(), 34);
    assert_eq!(r.count(), 7);
    assert_eq!(r.end(), 40);
    // the iterator can be asked for again
    assert_eq!(r.iter().count(), 7);
}

#[test]
fn single_number_is_range_of_one() {
    let d = parse_array_def("4294967295").unwrap();
    assert_eq!(d.range().start(), 4294967295);
    assert_eq!(d.range().count(), 1);
    assert_eq!(d.iter().collect::<Vec<_>>(), vec![4294967295]);
}

#[test]
fn pair_length_is_end_minus_start_plus_one() {
    let d = parse_array_def("0-9").unwrap();
    assert_eq!(d.range().start(), 0);
    assert_eq!(d.range().count(), 10);
    let d = parse_array_def("4294967290-4294967295").unwrap();
    assert_eq!(d.range().count(), 6);
    assert_eq!(d.iter().last(), Some(4294967295));
}

#[test]
fn end_before_start_is_invalid_range() {
    assert_eq!(
        parse_array_def("101-100"),
        Err(ArrayParseError::InvalidRange(101, 100))
    );
    assert_eq!(
        parse_array_def("0-4294967295"),
        Err(ArrayParseError::InvalidRange(0, 4294967295))
    );
}

#[test]
fn malformed_tokens_carry_the_input() {
    for bad in ["", "x", "-", "1-", "-1", "1-2-3", "1 ", " 1", "+1", "1-x", "12a", "1--2", "\u{663}"] {
        assert_eq!(
            parse_array_def(bad),
            Err(ArrayParseError::ParseError(bad.to_string())),
            "{}",
            bad
        );
    }
}

#[test]
fn numbers_beyond_u32_are_malformed() {
    assert_eq!(
        parse_array_def("4294967296"),
        Err(ArrayParseError::ParseError("4294967296".to_string()))
    );
    assert_eq!(
        parse_array_def("1-99999999999"),
        Err(ArrayParseError::ParseError("1-99999999999".to_string()))
    );
    assert_eq!(parse_uint("4294967295"), Ok(4294967295));
    assert!(parse_uint("4294967296").is_err());
    assert!(parse_uint("12-13").is_err());
}

#[test]
fn leading_zeros_are_digits() {
    let d = parse_array_def("007-010").unwrap();
    assert_eq!(d.iter().collect::<Vec<_>>(), vec![7, 8, 9, 10]);
}
