use lflog::{cells_at_indices, group_names_of, Error, Scanner};

#[test]
fn scanner_test_scanner_integration() {
    let pattern = r#"^\[{{time:datetime("%a %b %d %H:%M:%S %Y")}}\] \[{{level:var_name}}\] {{message:any}}$"#;
    let scanner = Scanner::new(pattern.to_string()).unwrap();
    let line = "[Sun Dec 04 04:47:44 2005] [notice] workerEnv.init() ok /etc/httpd/conf/workers2.properties";
    let fields = scanner.scan(line).unwrap();
    assert_eq!(fields.len(), 3);
    assert_eq!(fields[0], "Sun Dec 04 04:47:44 2005");
    assert_eq!(fields[1], "notice");
}

#[test]
fn test_scanner_no_named_groups_panic() {
    let pattern = r"^\d+$";
    let scanner = Scanner::new(pattern.to_string()).unwrap();

    assert!(scanner.field_names.is_empty());

    let indices = scanner
        .prepare_indices(&["__FILE__"], &["__FILE__"])
        .unwrap();

    assert_eq!(indices.len(), 1);
    assert!(indices[0] >= 1);
}

#[test]
fn test_scanner_mixed_groups_indices() {
    let pattern = r"^(\d+) (?P<name>\w+)$";
    let scanner = Scanner::new(pattern.to_string()).unwrap();

    assert_eq!(scanner.field_names, vec!["name"]);

    let indices = scanner
        .prepare_indices(&["name", "__FILE__"], &["__FILE__"])
        .unwrap();

    assert_eq!(indices.len(), 2);
    assert_eq!(indices[0], 2);
    assert!(indices[1] >= 3);

    let line = "123 test";
    let mut values = Vec::new();
    let matched = scanner.scan_direct(line, &indices, &mut values);

    assert!(matched);
    assert_eq!(values[0], "test");
    assert_eq!(values[1], "");
}

#[test]
fn scan_equals_hand_written_regex() {
    let with_macros = Scanner::new(
        r#"^\[{{time:datetime("%a %b %d %H:%M:%S %Y")}}\] \[{{level:var_name}}\] {{message:any}}$"#
            .to_string(),
    )
    .unwrap();
    let by_hand = Scanner::new(
        r"^\[(?P<time>[A-Za-z]+ [A-Za-z]+ \d{2} \d{2}:\d{2}:\d{2} \d{4})\] \[(?P<level>[A-Za-z_][A-Za-z0-9_]*)\] (?P<message>.+?)$"
            .to_string(),
    )
    .unwrap();
    let line = "[Sun Dec 04 04:47:44 2005] [notice] workerEnv.init() ok";
    assert_eq!(with_macros.pattern(), by_hand.pattern());
    let a = with_macros.scan(line).unwrap();
    let b = by_hand.scan(line).unwrap();
    assert_eq!(a, b);
    assert_eq!(a, vec!["Sun Dec 04 04:47:44 2005", "notice", "workerEnv.init() ok"]);
}

#[test]
fn scan_without_match_is_none() {
    let scanner = Scanner::new(r"^{{n:number}}$".to_string()).unwrap();
    assert!(scanner.scan("12a").is_none());
    let mut values = vec!["keep"];
    assert!(!scanner.scan_direct("x", &[1], &mut values));
    assert_eq!(values, vec!["keep"]);
}

#[test]
fn scan_with_picks_named_fields() {
    let scanner = Scanner::new(r"{{a:number}}-{{b:number}}".to_string()).unwrap();
    let v = scanner.scan_with("10-20", &["b", "a", "missing"]).unwrap();
    assert_eq!(v, vec!["20", "10", ""]);
    assert_eq!(scanner.index_of("b"), Some(2));
    assert_eq!(scanner.captures_len(), 3);
}

#[test]
fn unknown_projected_name_is_field_not_found() {
    let scanner = Scanner::new(r"{{a:number}}".to_string()).unwrap();
    let err = scanner.prepare_indices(&["a", "zzz"], &[]).unwrap_err();
    assert_eq!(err, Error::FieldNotFound("zzz".to_string()));
    assert_eq!(err.message(), "Field name not found: zzz");
}

#[test]
fn invalid_regex_is_a_regex_error() {
    let err = Scanner::new(r"(unclosed".to_string()).unwrap_err();
    assert!(matches!(err, Error::Regex(_)));
}

#[test]
fn field_names_fall_back_to_named_groups() {
    let scanner = Scanner::new(r"(?P<x>\d)(\d)(?P<y>\d)".to_string()).unwrap();
    assert_eq!(scanner.field_names, vec!["x", "y"]);
    assert_eq!(scanner.groups, vec![None, Some("x".to_string()), None, Some("y".to_string())]);
}

#[test]
fn captured_cells_by_index() {
    let caps = vec![Some("12 ab"), None, Some("ab")];
    let mut out = vec!["old"];
    cells_at_indices(&caps, &[2, 1, 7, 0], &mut out);
    assert_eq!(out, vec!["ab", "", "", "12 ab"]);
}

#[test]
fn named_groups_in_order() {
    let groups = vec![None, Some("a".to_string()), None, Some("b".to_string())];
    assert_eq!(group_names_of(&groups), vec!["a".to_string(), "b".to_string()]);
}
