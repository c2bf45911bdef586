use lflog::{is_float, parse_int32, Column, FieldType, FieldsBuilder};

#[test]
fn int32_parsing() {
    assert_eq!(parse_int32("6725"), Some(6725));
    assert_eq!(parse_int32("+5"), Some(5));
    assert_eq!(parse_int32("-2147483648"), Some(i32::MIN));
    assert_eq!(parse_int32("2147483647"), Some(i32::MAX));
    assert_eq!(parse_int32("2147483648"), None);
    assert_eq!(parse_int32("-2147483649"), None);
    assert_eq!(parse_int32(""), None);
    assert_eq!(parse_int32("-"), None);
    assert_eq!(parse_int32("12a"), None);
    assert_eq!(parse_int32(" 1"), None);
    assert_eq!(parse_int32("007"), Some(7));
}

#[test]
fn builder_makes_typed_columns() {
    let types = [FieldType::Int, FieldType::String, FieldType::Float];
    let refs: Vec<&FieldType> = types.iter().collect();
    let mut b = FieldsBuilder::new(&refs);
    b.push(&refs, &["1", "a", "1.5"]);
    b.push(&refs, &["x", "b", "nan?"]);
    let cols = b.finish();
    assert_eq!(cols.len(), 3);
    match &cols[0] {
        Column::Int32(v) => assert_eq!(v, &vec![Some(1), None]),
        _ => panic!("expected an integer column"),
    }
    match &cols[1] {
        Column::Utf8(v) => assert_eq!(v, &vec!["a".to_string(), "b".to_string()]),
        _ => panic!("expected a text column"),
    }
    match &cols[2] {
        Column::Float64(v) => assert_eq!(v, &vec![Some("1.5".to_string()), None]),
        _ => panic!("expected a float column"),
    }
    assert!(b.rows.is_empty());
    let again = b.finish();
    assert!(matches!(&again[0], Column::Int32(v) if v.is_empty()));
}

#[test]
fn float_text_follows_the_documented_grammar() {
    for ok in ["1", "-5", "1.", ".5", "123.456", "1.2e5", "1E-10", "+3.0e+2", "inf", "-Infinity", "NaN"] {
        assert!(is_float(ok), "{} should read as a float", ok);
        assert!(ok.parse::<f64>().is_ok());
    }
    for bad in ["", ".", "-", "e5", "1e", "1e+", "1.2.3", " 1", "1 ", "0x10", "infinit", "nan?"] {
        assert!(!is_float(bad), "{} should not read as a float", bad);
        assert!(bad.parse::<f64>().is_err());
    }
}
