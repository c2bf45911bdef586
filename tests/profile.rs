use lflog::{expand_macros, FieldType, Scanner};

#[test]
fn profile_test_expand_shorthand_number() {
    let pat = "qty: {{number:3-5}}";
    let (expanded, fields, _) = expand_macros(pat, None).unwrap();
    assert!(expanded.contains(r"\d{3,5}"));
    assert_eq!(fields.len(), 1);
}

#[test]
fn profile_test_auto_named_capture() {
    let pat = "count={{number}} items";
    let (expanded, fields, _) = expand_macros(pat, None).unwrap();
    assert!(expanded.contains("(?P<auto_1_number>"));
    assert_eq!(fields, vec!["auto_1_number".to_string()]);
}

#[test]
fn profile_test_named_field_capture() {
    let pat = "user {{name:var_name}} logged";
    let (expanded, fields, _) = expand_macros(pat, None).unwrap();
    assert!(expanded.contains("(?P<name>"));
    assert_eq!(fields, vec!["name".to_string()]);
}

#[test]
fn profile_test_datetime_macro_hint() {
    let pat = "{{ts:datetime(\"%Y-%m-%d %H:%M:%S\")}} - msg";
    let (_expanded, fields, hints) = expand_macros(pat, None).unwrap();
    assert_eq!(fields.len(), 1);
    let hint = hints.get(&fields[0]).unwrap();
    assert!(matches!(hint, FieldType::DateTime(_)));
}

#[test]
fn profile_test_scanner_integration() {
    let pattern =
        r"^\[(?P<time>\w{3} \w{3} \d{1,2})\] \[(?P<level>[^\]]+)\] (?P<message>.*)$".to_string();
    let scanner = Scanner::new(pattern).unwrap();
    let line = "[Mon Jan 1] [INFO] hello";
    let res = scanner.scan(line);
    assert!(res.is_some());
}
