use zlog::{parse_env_filter, FilterParseError, FilterTable, Level};

#[test]
fn env_filter_default_and_entries() {
    let f = parse_env_filter("info,editor=debug,,project.search=trace").unwrap();
    assert_eq!(f.default_level, Some(Level::Info));
    assert_eq!(f.entries.len(), 2);
    assert_eq!(f.entries[0].path, "editor");
    assert_eq!(f.entries[0].level, Level::Debug);
    assert_eq!(f.entries[1].path, "project.search");
    assert_eq!(f.entries[1].level, Level::Trace);
}

#[test]
fn env_filter_later_default_wins() {
    let f = parse_env_filter("warn,error").unwrap();
    assert_eq!(f.default_level, Some(Level::Error));
    assert!(f.entries.is_empty());
    let empty = parse_env_filter("").unwrap();
    assert_eq!(empty.default_level, None);
    assert!(empty.entries.is_empty());
}

#[test]
fn env_filter_errors() {
    assert_eq!(parse_env_filter("verbose").err(), Some(FilterParseError::UnknownLevel));
    assert_eq!(parse_env_filter("editor=loud").err(), Some(FilterParseError::UnknownLevel));
    assert_eq!(parse_env_filter("info,=debug").err(), Some(FilterParseError::EmptyPath));
}

#[test]
fn env_filter_applies_to_table() {
    let mut table = FilterTable::new(Level::Error);
    table.apply_env_filter(parse_env_filter("debug,editor=trace").unwrap());
    assert_eq!(table.default_level, Level::Debug);
    assert_eq!(table.resolve(&["editor", "", "", ""], None), Level::Trace);
    assert_eq!(table.resolve(&["project", "", "", ""], None), Level::Debug);
}

#[test]
fn settings_refresh_skips_unknown_levels() {
    let mut table = FilterTable::new(Level::Info);
    let settings = vec![
        ("editor".to_string(), "debug".to_string()),
        ("project".to_string(), "chatty".to_string()),
        ("editor.render".to_string(), "trace".to_string()),
    ];
    table.refresh_from_settings(&settings);
    assert_eq!(table.entries.len(), 2);
    assert_eq!(table.entries[0].path, "editor");
    assert_eq!(table.entries[1].path, "editor.render");
    assert_eq!(table.resolve(&["project", "", "", ""], None), Level::Info);
    assert_eq!(table.resolve(&["editor", "render", "", ""], None), Level::Trace);
}

#[test]
fn level_names() {
    assert_eq!(Level::from_name("warn"), Some(Level::Warn));
    assert_eq!(Level::from_name("WARN"), None);
    assert_eq!(Level::Error.severity(), 4);
    assert_eq!(Level::Trace.severity(), 0);
}
