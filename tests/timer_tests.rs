use std::time::Duration;
use zlog::{default_logger, BaseKeymap, Level, Timer, TimerReport};

#[test]
fn completion_reports_once() {
    let mut t = Timer::new(default_logger("editor::items"), "load");
    let first = t.complete(5);
    assert_eq!(
        first,
        Some(TimerReport { level: Level::Trace, elapsed_nanos: 5, limit_nanos: None })
    );
    assert!(t.done);
    assert_eq!(t.complete(7), None);
    assert_eq!(t.finish(), None);
    assert_eq!(t.end(), None);
}

#[test]
fn threshold_exceeded_warns_with_limit() {
    let mut t = Timer::new(default_logger("editor"), "save").warn_if_gt(Duration::from_millis(10));
    assert_eq!(t.warn_if_longer_than, Some(10_000_000));
    let report = t.complete(15_000_000);
    assert_eq!(
        report,
        Some(TimerReport {
            level: Level::Warn,
            elapsed_nanos: 15_000_000,
            limit_nanos: Some(10_000_000)
        })
    );
    assert_eq!(t.complete(15_000_000), None);
}

#[test]
fn threshold_not_exceeded_traces() {
    let mut t = Timer::new(default_logger("editor"), "save").warn_if_gt_nanos(10_000_000);
    assert_eq!(
        t.complete(10_000_000),
        Some(TimerReport { level: Level::Trace, elapsed_nanos: 10_000_000, limit_nanos: None })
    );
}

#[test]
fn end_reports_elapsed_time() {
    let t = Timer::new(default_logger("editor"), "quick");
    let report = t.end().unwrap();
    assert_eq!(report.level, Level::Trace);
    assert_eq!(report.limit_nanos, None);
}

#[test]
fn keymap_names_and_lookup() {
    assert_eq!(BaseKeymap::JetBrains.name(), "JetBrains");
    assert_eq!(BaseKeymap::NoKeymap.name(), "None");
    assert_eq!(
        BaseKeymap::names(),
        vec!["VSCode (Default)", "Atom", "JetBrains", "Sublime Text", "Emacs (Beta)", "Cursor (Beta)"]
    );
    assert_eq!(BaseKeymap::from_names("Sublime Text"), BaseKeymap::SublimeText);
    assert_eq!(BaseKeymap::from_names("TextMate"), BaseKeymap::VSCode);
    assert_eq!(BaseKeymap::from_names("nothing"), BaseKeymap::VSCode);
    assert_eq!(BaseKeymap::default(), BaseKeymap::VSCode);
}

#[test]
fn keymap_asset_paths() {
    assert_eq!(BaseKeymap::Atom.asset_path(), Some("keymaps/linux/atom.json"));
    assert_eq!(BaseKeymap::VSCode.asset_path(), None);
    assert_eq!(BaseKeymap::TextMate.asset_path(), None);
}
