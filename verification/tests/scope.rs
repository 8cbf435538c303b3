use gpui_navigation::{ScopeId, ScopePath};

#[test]
fn builds_and_navigates_hierarchical_paths() {
    let root = ScopePath::root();
    let workspace = root.child(ScopeId::new("workspace"));
    let settings = workspace.child(ScopeId::new("settings"));

    assert!(root.is_root());
    assert_eq!(workspace.to_string(), "/workspace");
    assert_eq!(settings.to_string(), "/workspace/settings");
    assert!(workspace.is_prefix_of(&settings));
    assert_eq!(settings.parent(), Some(workspace));
    assert_eq!(root.parent(), None);
}

#[test]
fn root_displays_as_slash_and_has_no_depth() {
    let root = ScopePath::root();

    assert_eq!(root.to_string(), "/");
    assert_eq!(root.depth(), 0);
    assert!(root.segments().is_empty());
    assert_eq!(ScopePath::default(), root);
}

#[test]
fn child_is_one_level_deeper_and_parent_undoes_it() {
    let workspace = ScopePath::root().child(ScopeId::new("workspace"));
    let settings = workspace.child(ScopeId::new("settings"));

    assert_eq!(settings.depth(), 2);
    assert!(!settings.is_root());
    assert_eq!(settings.parent().unwrap().parent(), Some(ScopePath::root()));
    let names: Vec<&str> = settings.segments().iter().map(|id| id.as_str()).collect();
    assert_eq!(names, vec!["workspace", "settings"]);
}

#[test]
fn prefix_relation_between_scopes() {
    let root = ScopePath::root();
    let workspace = root.child(ScopeId::new("workspace"));
    let settings = workspace.child(ScopeId::new("settings"));
    let other = root.child(ScopeId::new("other"));

    assert!(root.is_prefix_of(&settings));
    assert!(workspace.is_prefix_of(&workspace));
    assert!(!settings.is_prefix_of(&workspace));
    assert!(!other.is_prefix_of(&settings));
    assert!(!workspace.is_prefix_of(&other));
}

#[test]
fn scope_ids_compare_by_name() {
    let a = ScopeId::new("workspace");
    let b = a.clone();

    assert_eq!(a, b);
    assert_ne!(a, ScopeId::new("settings"));
    assert_eq!(a.as_str(), "workspace");
    assert_eq!(a.to_string(), "workspace");
}

#[test]
fn scope_names_convert_from_text() {
    let from_str: ScopeId = "workspace".into();
    let from_string = ScopeId::from(String::from("workspace"));
    let from_shared = ScopeId::from(std::sync::Arc::<str>::from("workspace"));

    assert_eq!(from_str, ScopeId::new("workspace"));
    assert_eq!(from_string, ScopeId::new("workspace"));
    assert_eq!(from_shared, ScopeId::new("workspace"));
    assert_eq!(from_shared.as_str(), "workspace");
    assert_ne!(ScopeId::from("workspace"), ScopeId::new("settings"));
}
