use lflog::{CustomMacro, DateTime, Error, FieldType, LfLog, Profile, Profiles, QueryOptions};

#[test]
fn query_options_builders() {
    let o = QueryOptions::new("a.log")
        .with_pattern("{{x:any}}")
        .with_profile("web")
        .with_table_name("t")
        .with_add_file_path(true)
        .with_add_raw(true)
        .with_num_threads(Some(3));
    assert_eq!(o.log_file, "a.log");
    assert_eq!(o.pattern_override.as_deref(), Some("{{x:any}}"));
    assert_eq!(o.profile_name.as_deref(), Some("web"));
    assert_eq!(o.table_name, "t");
    assert!(o.add_file_path && o.add_raw);
    assert_eq!(o.num_threads, Some(3));
    let d = QueryOptions::default();
    assert_eq!(d.table_name, "log");
}

fn profiles() -> Profiles {
    Profiles {
        custom_macros: vec![],
        profiles: vec![Profile {
            name: "nums".to_string(),
            custom_macros: vec![CustomMacro {
                name: "hex".to_string(),
                pattern: "[0-9a-f]+".to_string(),
                type_hint: None,
                description: None,
            }],
            pattern: "^{{h:hex}}$".to_string(),
            description: Some("hex lines".to_string()),
        }],
    }
}

#[test]
fn register_with_inline_pattern() {
    let lf = LfLog::new();
    let t = lf
        .register(QueryOptions::new("x.log").with_pattern(r"^{{n:number}}$"))
        .unwrap();
    assert_eq!(t.file_path, "x.log");
    assert_eq!(t.scanner.field_names, vec!["n"]);
}

#[test]
fn register_with_profile() {
    let lf = LfLog::from_profiles(profiles());
    let t = lf.register(QueryOptions::new("x.log").with_profile("nums")).unwrap();
    assert_eq!(t.scanner.pattern(), "^(?P<h>[0-9a-f]+)$");
    let t = lf
        .register(QueryOptions::new("x.log").with_profile("nums").with_pattern("{{v:hex}}"))
        .unwrap();
    assert_eq!(t.scanner.pattern(), "(?P<v>[0-9a-f]+)");
}

#[test]
fn register_without_pattern_is_a_configuration_error() {
    let lf = LfLog::new();
    assert!(matches!(lf.register(QueryOptions::new("x.log")), Err(Error::Config(_))));
    assert!(matches!(
        lf.register(QueryOptions::new("x.log").with_profile("nums")),
        Err(Error::Config(_))
    ));
    let lf = LfLog::from_profiles(profiles());
    assert!(matches!(
        lf.register(QueryOptions::new("x.log").with_profile("missing")),
        Err(Error::Config(_))
    ));
}

#[test]
fn datetime_parse_reads_first_fitting_format() {
    let d = DateTime::new(Some(vec!["%d/%m/%Y %H:%M".to_string(), "%Y-%m-%d %H:%M:%S".to_string()]));
    assert_eq!(d.parse("2023-05-03 12:34:56"), Some(1_683_117_296_000_000));
    assert_eq!(d.parse("not a time"), None);
    assert_eq!(DateTime::new(None).parse("2023-05-03 12:34:56"), None);
}

#[test]
fn field_type_copy_is_equal() {
    let t = FieldType::DateTime(DateTime::new(Some(vec!["%Y".to_string()])));
    assert_eq!(t.duplicate(), t);
}

#[test]
fn error_messages() {
    assert_eq!(Error::NoFiles("p".to_string()).message(), "No files found for path: p");
    assert_eq!(Error::other("plain".to_string()).message(), "plain");
}
