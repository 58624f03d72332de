use zlog::{
    default_logger, extract_crate_name_from_module_path, scope_alloc_new, scope_new,
    scope_to_alloc, Logger, SCOPE_DEPTH_MAX,
};

#[test]
fn test_crate_name() {
    assert_eq!(extract_crate_name_from_module_path("zlog::tests"), "zlog");
    assert_eq!(
        extract_crate_name_from_module_path("my_speedy_⚡️_crate::some_module"),
        "my_speedy_⚡️_crate"
    );
    assert_eq!(
        extract_crate_name_from_module_path("my_speedy_crate_⚡️::some_module"),
        "my_speedy_crate_⚡️"
    );
    assert_eq!(
        extract_crate_name_from_module_path("my_speedy_crate_:⚡️:some_module"),
        "my_speedy_crate_:⚡️:some_module"
    );
    assert_eq!(
        extract_crate_name_from_module_path("my_speedy_crate_::⚡️some_module"),
        "my_speedy_crate_"
    );
}

#[test]
fn crate_name_examples() {
    assert_eq!(extract_crate_name_from_module_path("alpha::beta::gamma"), "alpha");
    assert_eq!(extract_crate_name_from_module_path("alpha"), "alpha");
    assert_eq!(extract_crate_name_from_module_path("alpha:?:beta"), "alpha:?:beta");
    assert_eq!(extract_crate_name_from_module_path(""), "");
    assert_eq!(extract_crate_name_from_module_path("::alpha"), "");
    assert_eq!(extract_crate_name_from_module_path("alpha:"), "alpha:");
}

#[test]
fn crate_name_is_idempotent() {
    for p in ["alpha::beta::gamma", "alpha", "a:b::c::d", "x:::y", "::"] {
        let once = extract_crate_name_from_module_path(p);
        assert_eq!(extract_crate_name_from_module_path(once), once);
    }
}

#[test]
fn scope_new_fills_leading_slots() {
    assert_eq!(SCOPE_DEPTH_MAX, 4);
    assert_eq!(scope_new(&["a", "b"]), ["a", "b", "", ""]);
    assert_eq!(scope_new(&[]), ["", "", "", ""]);
    assert_eq!(scope_new(&["a", "b", "c", "d"]), ["a", "b", "c", "d"]);
}

#[test]
fn owned_scopes_copy_segments() {
    let owned = scope_alloc_new(&["x", "y"]);
    assert_eq!(owned, ["x".to_string(), "y".to_string(), String::new(), String::new()]);
    let copied = scope_to_alloc(&["p", "q", "r", ""]);
    assert_eq!(copied, ["p".to_string(), "q".to_string(), "r".to_string(), String::new()]);
}

#[test]
fn default_logger_holds_component_name() {
    let logger = default_logger("editor::items::tabs");
    assert_eq!(logger.scope, ["editor", "", "", ""]);
}

#[test]
fn scoped_fills_next_free_slot() {
    let root = default_logger("editor::items");
    let child = root.scoped("render");
    assert_eq!(child.scope, ["editor", "render", "", ""]);
    let grandchild = child.scoped("layout");
    assert_eq!(grandchild.scope, ["editor", "render", "layout", ""]);
    assert_eq!(root.scope, ["editor", "", "", ""]);
}

#[test]
fn scoped_overflow_keeps_scope() {
    let full = Logger { scope: ["a", "b", "c", "d"] };
    let derived = full.scoped("e");
    assert_eq!(derived, full);
}
