use gpui_navigation::{
    NavMotion, NavigationRegistry, Navigator, NavigatorConfig, NavigatorError, ScopeId, ScopePath,
};

fn scope(names: &[&str]) -> ScopePath {
    names
        .iter()
        .fold(ScopePath::root(), |path, name| path.child(ScopeId::new(name)))
}

#[test]
fn new_registry_holds_only_the_root_stack() {
    let registry = NavigationRegistry::new("root stack");

    assert_eq!(registry.get(&ScopePath::root()), Some(&"root stack"));
    assert_eq!(registry.get(&scope(&["workspace"])), None);
    assert_eq!(registry.default_motion(), NavMotion::Animated);
    assert_eq!(registry.config(), NavigatorConfig::default());
}

#[test]
fn inserted_scopes_are_found_again() {
    let mut registry = NavigationRegistry::new(0u32);
    registry.insert(scope(&["workspace"]), 1);
    registry.insert(scope(&["workspace", "settings"]), 2);

    assert_eq!(registry.get(&scope(&["workspace"])), Some(&1));
    assert_eq!(registry.get(&scope(&["workspace", "settings"])), Some(&2));
    assert!(matches!(registry.resolve_state(&scope(&["workspace"])), Ok(&1)));
    match registry.resolve_state(&scope(&["other"])) {
        Err(NavigatorError::ScopeNotFound(missing)) => assert_eq!(missing, scope(&["other"])),
        _ => panic!("a missing scope must be reported"),
    }
}

#[test]
fn removing_a_scope_releases_its_descendants_only() {
    let mut registry = NavigationRegistry::new(0u32);
    registry.insert(scope(&["workspace"]), 1);
    registry.insert(scope(&["workspace", "settings"]), 2);
    registry.insert(scope(&["other"]), 3);

    assert!(registry.remove_scope(&scope(&["workspace"])));
    assert_eq!(registry.get(&scope(&["workspace"])), None);
    assert_eq!(registry.get(&scope(&["workspace", "settings"])), None);
    assert_eq!(registry.get(&scope(&["other"])), Some(&3));
    assert_eq!(registry.get(&ScopePath::root()), Some(&0));
    assert!(!registry.remove_scope(&scope(&["workspace"])));
}

#[test]
fn configuration_changes_the_default_motion() {
    let mut registry = NavigationRegistry::new(());
    registry.with_config(NavigatorConfig::new().with_default_motion(NavMotion::Immediate));
    assert_eq!(registry.default_motion(), NavMotion::Immediate);

    assert!(NavigationRegistry::set_default_motion(Some(&mut registry), NavMotion::Animated).is_ok());
    assert_eq!(registry.default_motion(), NavMotion::Animated);
    assert!(matches!(
        NavigationRegistry::<()>::set_default_motion(None, NavMotion::Animated),
        Err(NavigatorError::NotInstalled)
    ));
}

#[test]
fn navigator_resolves_its_scope_in_the_registry() {
    let mut registry = NavigationRegistry::new(0u32);
    registry.insert(scope(&["workspace"]), 1);
    let workspace = Navigator::new().scope(ScopeId::new("workspace"));
    let settings = workspace.scope(ScopeId::new("settings"));

    assert!(matches!(workspace.resolve_state(Some(&registry)), Ok(&1)));
    assert!(matches!(
        settings.resolve_state(Some(&registry)),
        Err(NavigatorError::ScopeNotFound(_))
    ));
    assert!(matches!(
        workspace.resolve_state::<u32>(None),
        Err(NavigatorError::NotInstalled)
    ));
    assert!(matches!(workspace.ensure_state(Some(&registry)), Ok(Some(&1))));
    assert!(matches!(settings.ensure_state(Some(&registry)), Ok(None)));
    assert!(matches!(
        settings.ensure_state::<u32>(None),
        Err(NavigatorError::NotInstalled)
    ));
}

#[test]
fn navigator_motion_falls_back_to_the_registry_default() {
    let registry = NavigationRegistry::new(());
    let navigator = Navigator::new();

    assert!(matches!(
        navigator.resolve_motion(Some(&registry)),
        Ok(NavMotion::Animated)
    ));
    assert!(matches!(
        navigator.immediate().resolve_motion(Some(&registry)),
        Ok(NavMotion::Immediate)
    ));
    assert!(matches!(
        navigator.resolve_motion::<()>(None),
        Err(NavigatorError::NotInstalled)
    ));
    assert_eq!(navigator.motion_or(NavMotion::Immediate), NavMotion::Immediate);
    assert_eq!(navigator.animated().motion_or(NavMotion::Immediate), NavMotion::Animated);
}

#[test]
fn navigator_removes_scopes_but_not_the_root() {
    let mut registry = NavigationRegistry::new(0u32);
    registry.insert(scope(&["workspace"]), 1);
    registry.insert(scope(&["workspace", "settings"]), 2);
    let workspace = Navigator::new().scope(ScopeId::new("workspace"));

    assert!(matches!(
        Navigator::new().remove_scope(Some(&mut registry)),
        Err(NavigatorError::CannotRemoveRoot)
    ));
    assert!(matches!(
        workspace.remove_scope::<u32>(None),
        Err(NavigatorError::NotInstalled)
    ));
    assert!(matches!(workspace.remove_scope(Some(&mut registry)), Ok(true)));
    assert_eq!(registry.get(&scope(&["workspace", "settings"])), None);
    assert!(matches!(workspace.remove_scope(Some(&mut registry)), Ok(false)));
}

#[test]
fn navigator_targets_scopes_by_value() {
    let root = Navigator::new();
    let workspace = root.scope(ScopeId::new("workspace"));
    let settings = workspace.animated().scope(ScopeId::new("settings"));

    assert_eq!(workspace.path().to_string(), "/workspace");
    assert_eq!(settings.path().to_string(), "/workspace/settings");
    assert_eq!(settings.parent().map(|parent| parent.path().clone()), Some(workspace.path().clone()));
    assert_eq!(settings.root().path().to_string(), "/");
    assert!(root.parent().is_none());
    assert_eq!(
        Navigator::for_path(scope(&["workspace"])),
        workspace
    );
    assert_eq!(Navigator::default(), root);
    assert_eq!(workspace.with_motion(NavMotion::Immediate), workspace.immediate());
    assert_ne!(workspace.immediate(), workspace);
    assert_eq!(settings.clone(), settings);
}

#[test]
fn stack_depth_decides_pop_and_root() {
    assert!(!Navigator::can_pop_at(0));
    assert!(!Navigator::can_pop_at(1));
    assert!(Navigator::can_pop_at(2));
    assert!(Navigator::is_at_root_at(0));
    assert!(Navigator::is_at_root_at(1));
    assert!(!Navigator::is_at_root_at(3));
}

#[test]
fn config_defaults_to_animated_motion() {
    assert_eq!(NavigatorConfig::new().default_motion, NavMotion::Animated);
    assert_eq!(NavigatorConfig::default().default_motion, NavMotion::Animated);
    assert_eq!(
        NavigatorConfig::default()
            .with_default_motion(NavMotion::Immediate)
            .default_motion,
        NavMotion::Immediate
    );
}

#[test]
fn refusing_to_remove_the_root_leaves_every_scope() {
    let mut registry = NavigationRegistry::new(0u32);
    registry.insert(scope(&["workspace"]), 1);
    assert!(NavigationRegistry::set_default_motion(Some(&mut registry), NavMotion::Immediate).is_ok());

    assert!(matches!(
        Navigator::new().remove_scope(Some(&mut registry)),
        Err(NavigatorError::CannotRemoveRoot)
    ));
    assert_eq!(registry.get(&ScopePath::root()), Some(&0));
    assert_eq!(registry.get(&scope(&["workspace"])), Some(&1));
    assert_eq!(registry.default_motion(), NavMotion::Immediate);
}

#[test]
fn only_one_registry_may_be_installed() {
    let installed = NavigationRegistry::new(0u32);

    assert!(matches!(
        NavigationRegistry::check_install(Some(&installed)),
        Err(NavigatorError::AlreadyInstalled)
    ));
    assert!(NavigationRegistry::<u32>::check_install(None).is_ok());
    assert!(NavigationRegistry::check_uninstall(Some(&installed)).is_ok());
    assert!(matches!(
        NavigationRegistry::<u32>::check_uninstall(None),
        Err(NavigatorError::NotInstalled)
    ));
}
