use omd::scope::WriteScopeValidator;

/// The workspace the relative paths of these tests are resolved against.
const WS: &str = "/work/project";

/// Whether `path` is allowed when every directory on its way exists inside
/// the workspace (what the filesystem reports for an ordinary checkout).
fn allowed_inside(v: &WriteScopeValidator, path: &str) -> bool {
    let target = v.full_path(path);
    v.is_allowed_resolved(path, Some(WS), Some(&target))
}

#[test]
fn exact_path_match() {
    let v = WriteScopeValidator::with_workspace(&["src/main.rs"], WS);
    assert!(allowed_inside(&v, "src/main.rs"));
    assert!(!allowed_inside(&v, "src/lib.rs"));
}

#[test]
fn glob_pattern_match() {
    let v = WriteScopeValidator::with_workspace(&["crates/omd/src/**"], WS);
    assert!(allowed_inside(&v, "crates/omd/src/scope.rs"));
    assert!(allowed_inside(&v, "crates/omd/src/nested/deep.rs"));
    assert!(!allowed_inside(&v, "crates/tui/src/main.rs"));
}

#[test]
fn multiple_patterns() {
    let v = WriteScopeValidator::with_workspace(&["src/**/*.rs", "tests/**"], WS);
    assert!(allowed_inside(&v, "src/foo/bar.rs"));
    assert!(allowed_inside(&v, "tests/integration.rs"));
    assert!(!allowed_inside(&v, "docs/README.md"));
}

#[test]
fn empty_scope_blocks_all() {
    let v = WriteScopeValidator::with_workspace(&[], WS);
    assert!(!allowed_inside(&v, "anything.rs"));
}

#[test]
fn omd_directory_always_writable_for_fuxi() {
    let v = WriteScopeValidator::with_workspace(&[".omd/**"], WS);
    assert!(allowed_inside(&v, ".omd/plans/refactor.md"));
    assert!(!allowed_inside(&v, "src/main.rs"));
}

#[test]
fn path_traversal_blocked() {
    let v = WriteScopeValidator::with_workspace(&["src/**"], WS);
    assert!(!allowed_inside(&v, "src/../etc/passwd"));
    assert!(!allowed_inside(&v, "src/../../secret"));
}

#[test]
fn symlink_escape_blocked() {
    // `src` is a symbolic link to a directory outside the workspace: the
    // target resolves there.
    let v = WriteScopeValidator::with_workspace(&["src/**"], WS);
    assert!(!v.is_allowed_resolved("src/secret.txt", Some(WS), Some("/elsewhere/secret.txt")));
}

#[test]
fn scope_unresolvable_workspace_blocks() {
    let v = WriteScopeValidator::with_workspace(&["src/**"], WS);
    assert!(!v.is_allowed_resolved("src/lib.rs", None, Some("/work/project/src/lib.rs")));
    assert!(!v.is_allowed_resolved("src/lib.rs", Some(WS), None));
}

#[test]
fn scope_absolute_path_is_taken_relative_to_workspace() {
    let v = WriteScopeValidator::with_workspace(&["src/**"], WS);
    assert!(v.is_allowed_resolved("/work/project/src/lib.rs", Some(WS), Some("/work/project/src/lib.rs")));
    assert_eq!(
        v.scope_relative("/work/project/src/lib.rs", Some(WS), Some("/work/project/src/lib.rs")),
        Some("src/lib.rs".to_string())
    );
    assert!(!v.is_allowed_resolved("/other/src/lib.rs", Some(WS), Some("/other/src/lib.rs")));
}

#[test]
fn scope_component_prefix_is_not_a_string_prefix() {
    // `/work/project-two` is not inside `/work/project`.
    let v = WriteScopeValidator::with_workspace(&["**"], WS);
    assert!(!v.is_allowed_resolved("x.rs", Some(WS), Some("/work/project-two/x.rs")));
}

#[test]
fn scope_patterns_and_full_path() {
    let v = WriteScopeValidator::with_workspace(&["a/**", "b/*"], WS);
    assert_eq!(v.patterns().to_vec(), vec!["a/**".to_string(), "b/*".to_string()]);
    assert_eq!(v.full_path("src/x.rs"), "/work/project/src/x.rs");
    assert_eq!(v.full_path("/abs/x.rs"), "/abs/x.rs");
    let w = WriteScopeValidator::with_workspace_strings(&["c/**".to_string()], "/ws/");
    assert_eq!(w.full_path("x"), "/ws/x");
    assert_eq!(w.workspace(), "/ws/");
}
