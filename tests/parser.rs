use lflog::{parse_macro_invocation, split_args, CustomMacro, Error, FieldType, Profile, Profiles};

#[test]
fn split_args_honours_quotes_and_escapes() {
    assert_eq!(split_args(r#""a,b", 'c' , d"#), vec!["a,b", "c", "d"]);
    assert_eq!(split_args(r#""x\"y""#), vec!["x\"y"]);
    assert_eq!(split_args("a,,b,"), vec!["a", "", "b"]);
    assert!(split_args("   ").is_empty());
}

#[test]
fn invocation_forms() {
    let inv = parse_macro_invocation(" ts:datetime(\"%Y\", '%m') ").unwrap();
    assert_eq!(inv.field.as_deref(), Some("ts"));
    assert_eq!(inv.name, "datetime");
    assert_eq!(inv.args, vec!["%Y", "%m"]);

    let inv = parse_macro_invocation("number:3-5").unwrap();
    assert_eq!(inv.field, None);
    assert_eq!(inv.name, "number");
    assert_eq!(inv.args, vec!["3-5"]);

    let inv = parse_macro_invocation("user:var_name").unwrap();
    assert_eq!(inv.field.as_deref(), Some("user"));
    assert_eq!(inv.name, "var_name");
    assert!(inv.args.is_empty());

    let inv = parse_macro_invocation("any").unwrap();
    assert_eq!(inv.field, None);
    assert_eq!(inv.name, "any");
}

#[test]
fn invocation_errors() {
    assert!(matches!(parse_macro_invocation("  "), Err(Error::MacroParse(_))));
    assert!(matches!(parse_macro_invocation("num(3"), Err(Error::MacroParse(_))));
}

fn mac(name: &str, pattern: &str) -> CustomMacro {
    CustomMacro {
        name: name.to_string(),
        pattern: pattern.to_string(),
        type_hint: Some(FieldType::String),
        description: None,
    }
}

#[test]
fn profiles_lookup_and_merge() {
    let profiles = Profiles {
        custom_macros: vec![mac("ip", r"\d+\.\d+\.\d+\.\d+")],
        profiles: vec![Profile {
            name: "web".to_string(),
            custom_macros: vec![mac("path", r"\S+")],
            pattern: "{{client:ip}} {{p:path}}".to_string(),
            description: None,
        }],
    };
    assert_eq!(profiles.get_macro("ip").unwrap().pattern, r"\d+\.\d+\.\d+\.\d+");
    assert!(profiles.get_macro("path").is_none());
    assert!(profiles.get_profile("db").is_none());
    let merged = profiles.merge_shared_macros();
    let web = merged.get_profile("web").unwrap();
    let names: Vec<&str> = web.custom_macros.iter().map(|m| m.name.as_str()).collect();
    assert_eq!(names, vec!["path", "ip"]);
    assert!(web.get_macro("ip").is_some());
}
