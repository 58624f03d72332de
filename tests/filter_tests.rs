use zlog::{
    is_enabled, is_possibly_enabled_level, is_scope_enabled, FilterEntry, FilterTable, Level,
    Logger, Record, Zlog,
};

fn entry(path: &str, level: Level) -> FilterEntry {
    FilterEntry { path: path.to_string(), level }
}

#[test]
fn empty_table_uses_default() {
    let table = FilterTable::new(Level::Info);
    let scope = ["editor", "", "", ""];
    assert_eq!(table.resolve(&scope, None), Level::Info);
    assert!(is_scope_enabled(&table, &scope, None, Level::Warn));
    assert!(is_scope_enabled(&table, &scope, None, Level::Info));
    assert!(!is_scope_enabled(&table, &scope, None, Level::Debug));
}

#[test]
fn longest_prefix_wins_in_any_order() {
    let scope = ["editor", "render", "", ""];
    let mut table = FilterTable::new(Level::Info);
    table.refresh(vec![entry("editor.render", Level::Trace), entry("editor", Level::Error)]);
    assert_eq!(table.resolve(&scope, None), Level::Trace);
    table.refresh(vec![entry("editor", Level::Error), entry("editor.render", Level::Trace)]);
    assert_eq!(table.resolve(&scope, None), Level::Trace);
    assert_eq!(table.resolve(&["editor", "", "", ""], None), Level::Error);
}

#[test]
fn child_inherits_parent_entry() {
    let mut table = FilterTable::new(Level::Error);
    table.refresh(vec![entry("editor", Level::Debug)]);
    let parent = ["editor", "", "", ""];
    let child = ["editor", "render", "", ""];
    assert!(is_scope_enabled(&table, &parent, None, Level::Debug));
    assert!(is_scope_enabled(&table, &child, None, Level::Debug));
    assert!(!is_scope_enabled(&table, &child, None, Level::Trace));
}

#[test]
fn partial_segment_does_not_match() {
    let mut table = FilterTable::new(Level::Error);
    table.refresh(vec![entry("edit", Level::Trace), entry("editor.ren", Level::Trace)]);
    assert_eq!(table.resolve(&["editor", "render", "", ""], None), Level::Error);
}

#[test]
fn module_path_beats_component_name() {
    let mut table = FilterTable::new(Level::Error);
    table.refresh(vec![entry("editor::items", Level::Trace), entry("editor", Level::Warn)]);
    let scope = ["editor", "", "", ""];
    assert_eq!(table.resolve(&scope, Some("editor::items")), Level::Trace);
    assert_eq!(table.resolve(&scope, Some("editor::other")), Level::Warn);
    let nested = ["editor", "render", "", ""];
    table.refresh(vec![entry("editor::items", Level::Trace), entry("editor.render", Level::Warn)]);
    assert_eq!(table.resolve(&nested, Some("editor::items")), Level::Warn);
}

#[test]
fn refresh_replaces_whole_table() {
    let scope = ["editor", "", "", ""];
    let mut table = FilterTable::new(Level::Info);
    table.refresh(vec![entry("editor", Level::Trace)]);
    assert_eq!(table.resolve(&scope, None), Level::Trace);
    table.refresh(vec![entry("project", Level::Trace)]);
    assert_eq!(table.entries.len(), 1);
    assert_eq!(table.resolve(&scope, None), Level::Info);
    assert_eq!(table.default_level, Level::Info);
}

#[test]
fn global_gate_dominates() {
    let mut table = FilterTable::new(Level::Trace);
    table.refresh(vec![entry("editor", Level::Trace)]);
    let scope = ["editor", "", "", ""];
    for level in [Level::Trace, Level::Debug, Level::Info, Level::Warn] {
        assert!(!is_enabled(Level::Error, &table, &scope, None, level));
        assert!(is_enabled(Level::Trace, &table, &scope, None, level));
    }
    assert!(is_enabled(Level::Error, &table, &scope, None, Level::Error));
    assert!(is_possibly_enabled_level(Level::Warn, Level::Info));
    assert!(!is_possibly_enabled_level(Level::Debug, Level::Info));
}

#[test]
fn logger_record_passes_both_gates() {
    let mut table = FilterTable::new(Level::Warn);
    table.refresh(vec![entry("editor.render", Level::Debug)]);
    let logger = Logger { scope: ["editor", "render", "", ""] };
    let rec = logger.record(Level::Trace, &table, Some("editor::view"), Level::Debug);
    assert_eq!(
        rec,
        Some(Record {
            scope: ["editor", "render", "", ""],
            level: Level::Debug,
            origin: Some("editor::view")
        })
    );
    assert_eq!(logger.record(Level::Trace, &table, None, Level::Trace), None);
    assert_eq!(logger.record(Level::Info, &table, None, Level::Debug), None);
}

#[test]
fn backend_routes_by_component_name() {
    let backend = Zlog {};
    let mut table = FilterTable::new(Level::Error);
    table.refresh(vec![entry("editor", Level::Info)]);
    let rec = backend.route(Level::Trace, &table, Some("editor::items"), Some("items.rs"), Level::Info);
    assert_eq!(
        rec,
        Some(Record {
            scope: ["editor::items", "", "", ""],
            level: Level::Info,
            origin: Some("editor::items")
        })
    );
    assert_eq!(backend.route(Level::Trace, &table, Some("project::x"), None, Level::Info), None);
    let unknown = backend.route(Level::Trace, &table, None, Some("main.rs"), Level::Error);
    assert_eq!(
        unknown,
        Some(Record { scope: ["*unknown*", "", "", ""], level: Level::Error, origin: Some("main.rs") })
    );
    assert_eq!(backend.route(Level::Error, &table, Some("editor::items"), None, Level::Info), None);
}
