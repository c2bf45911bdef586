use lflog::{expand_macros, CustomMacro, DateTime, Error, FieldType};

#[test]
fn expander_test_expand_shorthand_number() {
    let pat = "qty: {{number:3-5}}";
    let (expanded, fields, _) = expand_macros(pat, None).unwrap();
    assert!(expanded.contains(r"\d{3,5}"));
    assert_eq!(fields.len(), 1);
}

#[test]
fn expander_test_auto_named_capture() {
    let pat = "count={{number}} items";
    let (expanded, fields, _) = expand_macros(pat, None).unwrap();
    assert!(expanded.contains("(?P<auto_1_number>"));
    assert_eq!(fields, vec!["auto_1_number".to_string()]);
}

#[test]
fn expander_test_named_field_capture() {
    let pat = "user {{name:var_name}} logged";
    let (expanded, fields, _) = expand_macros(pat, None).unwrap();
    assert!(expanded.contains("(?P<name>"));
    assert_eq!(fields, vec!["name".to_string()]);
}

#[test]
fn expander_test_datetime_macro_hint() {
    let pat = "{{ts:datetime(\"%Y-%m-%d %H:%M:%S\")}} - msg";
    let (_expanded, fields, hints) = expand_macros(pat, None).unwrap();
    assert_eq!(fields.len(), 1);
    let hint = hints.get(&fields[0]).unwrap();
    assert_eq!(
        *hint,
        FieldType::DateTime(DateTime::new(Some(vec!["%Y-%m-%d %H:%M:%S".to_string()])))
    );
}

#[test]
fn test_datetime_multiple_formats() {
    let pat = "{{ts:datetime(\"%Y-%m-%d %H:%M:%S\",\"%d/%b/%Y:%H:%M:%S\")}} - msg";
    let (expanded, fields, hints) = expand_macros(pat, None).unwrap();
    assert!(expanded.contains("|"));
    assert_eq!(fields.len(), 1);
    let hint = hints.get(&fields[0]).unwrap();
    assert_eq!(
        *hint,
        FieldType::DateTime(DateTime::new(Some(vec![
            "%Y-%m-%d %H:%M:%S".to_string(),
            "%d/%b/%Y:%H:%M:%S".to_string()
        ])))
    );
    let re = regex::Regex::new(&expanded).unwrap();
    assert!(re.is_match("2023-05-03 12:34:56 - msg"));
    assert!(re.is_match("03/May/2023:12:34:56 - msg"));
}

#[test]
fn test_custom_macro() {
    let custom = CustomMacro {
        name: "ip".to_string(),
        pattern: r"\d{1,3}(?:\.\d{1,3}){3}".to_string(),
        type_hint: Some(FieldType::String),
        description: Some("IPv4 address".to_string()),
    };
    let pat = "{{client:ip}} connected";
    let (expanded, fields, hints) = expand_macros(pat, Some(&[custom])).unwrap();
    assert!(expanded.contains(r"\d{1,3}(?:\.\d{1,3}){3}"));
    assert_eq!(fields, vec!["client".to_string()]);
    assert_eq!(*hints.get("client").unwrap(), FieldType::String);
}

#[test]
fn test_datetime_macro_default() {
    let pat = "{{ts:datetime}} - msg";
    let (_expanded, fields, hints) = expand_macros(pat, None).unwrap();
    assert_eq!(fields.len(), 1);
    let hint = hints.get(&fields[0]).unwrap();
    assert_eq!(
        *hint,
        FieldType::DateTime(DateTime::new(Some(vec!["%Y-%m-%dT%H:%M:%S%.f".to_string()])))
    );
}

#[test]
fn test_float_macro() {
    let pat = "value: {{val:float}}";
    let (expanded, fields, hints) = expand_macros(pat, None).unwrap();

    let re = regex::Regex::new(&expanded).unwrap();

    assert!(re.is_match("value: 123"));
    assert!(re.is_match("value: -5"));

    assert!(re.is_match("value: 123.456"));
    assert!(re.is_match("value: 0.1"));
    assert!(re.is_match("value: .5"));

    assert!(re.is_match("value: 1.2e5"));
    assert!(re.is_match("value: 1E-10"));

    assert_eq!(fields, vec!["val".to_string()]);
    assert_eq!(*hints.get("val").unwrap(), FieldType::Float);
}

#[test]
fn escaped_delimiter_passes_through() {
    let (expanded, fields, hints) = expand_macros("\\{{x}}", None).unwrap();
    assert_eq!(expanded, "{{x}}");
    assert!(fields.is_empty());
    assert_eq!(hints.len(), 0);
}

#[test]
fn full_expansion_text() {
    let (expanded, fields, _) = expand_macros("a {{n:number}} b {{num(4)}}", None).unwrap();
    assert_eq!(expanded, r"a (?P<n>\d+) b (?P<auto_1_num>\d{4})");
    assert_eq!(fields, vec!["n".to_string(), "auto_1_num".to_string()]);
}

#[test]
fn auto_names_count_across_pattern() {
    let (expanded, fields, _) = expand_macros("{{number}}-{{x:any}}-{{ident}}", None).unwrap();
    assert_eq!(fields, vec!["auto_1_number", "x", "auto_2_ident"]);
    assert_eq!(
        expanded,
        r"(?P<auto_1_number>\d+)-(?P<x>.+?)-(?P<auto_2_ident>[A-Za-z_][A-Za-z0-9_]*)"
    );
}

#[test]
fn builtin_names_ignore_ascii_case() {
    let (expanded, _, hints) = expand_macros("{{v:NUMBER}}", None).unwrap();
    assert_eq!(expanded, r"(?P<v>\d+)");
    assert_eq!(*hints.get("v").unwrap(), FieldType::Int);
}

#[test]
fn enum_values_are_escaped() {
    let (expanded, _, hints) = expand_macros("{{lvl:enum(a.b, c+d,e)}}", None).unwrap();
    assert_eq!(expanded, r"(?P<lvl>(?:a\.b|c\+d|e))");
    assert_eq!(*hints.get("lvl").unwrap(), FieldType::Enum);
}

#[test]
fn uuid_and_string_fragments() {
    let (expanded, _, hints) = expand_macros("{{id:uuid}} {{s:str}}", None).unwrap();
    assert_eq!(
        expanded,
        r"(?P<id>[0-9a-fA-F]{8}-[0-9a-fA-F]{4}-[0-9a-fA-F]{4}-[0-9a-fA-F]{4}-[0-9a-fA-F]{12}) (?P<s>.+?)"
    );
    assert_eq!(*hints.get("id").unwrap(), FieldType::String);
}

#[test]
fn datetime_format_literals_are_escaped() {
    let (expanded, _, _) = expand_macros("{{t:ts(\"%H.%M\")}}", None).unwrap();
    assert_eq!(expanded, r"(?P<t>\d{2}\.\d{2})");
}

#[test]
fn custom_macro_shadows_builtin() {
    let custom = CustomMacro {
        name: "number".to_string(),
        pattern: "[0-9a-f]+".to_string(),
        type_hint: None,
        description: None,
    };
    let (expanded, fields, hints) = expand_macros("{{h:number}}", Some(&[custom])).unwrap();
    assert_eq!(expanded, "(?P<h>[0-9a-f]+)");
    assert_eq!(fields, vec!["h"]);
    assert!(hints.get("h").is_none());
}

#[test]
fn unknown_macro_is_an_expansion_error() {
    let err = expand_macros("{{x:nosuch}}", None).unwrap_err();
    assert!(matches!(err, Error::Macro(_)));
    assert_eq!(err.message(), "Macro expansion error: unknown macro 'nosuch'");
}

#[test]
fn bad_number_argument_is_an_expansion_error() {
    let err = expand_macros("{{number(abc)}}", None).unwrap_err();
    assert!(matches!(err, Error::Macro(_)));
}

#[test]
fn enum_without_values_is_an_expansion_error() {
    let err = expand_macros("{{e:enum()}}", None).unwrap_err();
    assert!(matches!(err, Error::Macro(_)));
}

#[test]
fn unclosed_delimiter_is_an_expansion_error() {
    let err = expand_macros("abc {{number", None).unwrap_err();
    assert!(matches!(err, Error::Macro(_)));
}

#[test]
fn unknown_datetime_directive_is_an_expansion_error() {
    let err = expand_macros("{{t:datetime(\"%Q\")}}", None).unwrap_err();
    assert!(matches!(err, Error::Macro(_)));
    let err = expand_macros("{{t:datetime(\"%Y%\")}}", None).unwrap_err();
    assert!(matches!(err, Error::Macro(_)));
}

#[test]
fn duplicate_field_is_an_expansion_error() {
    let err = expand_macros("{{a:number}} {{a:any}}", None).unwrap_err();
    assert!(matches!(err, Error::Macro(_)));
}

#[test]
fn empty_invocation_is_a_parse_error() {
    let err = expand_macros("x {{ }} y", None).unwrap_err();
    assert!(matches!(err, Error::MacroParse(_)));
}

#[test]
fn unclosed_parenthesis_is_a_parse_error() {
    let err = expand_macros("{{t:datetime(\"%Y\"}}", None).unwrap_err();
    assert!(matches!(err, Error::MacroParse(_)));
}
