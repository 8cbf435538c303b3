use gpui_navigation::{NavPath, NavigationError, NavigationHistory, RouteSegment};

#[derive(Debug, Clone, Copy, PartialEq, Eq)]
enum Workspace {
    Projects,
    Settings,
}

impl RouteSegment for Workspace {
    fn route_type() -> String {
        String::from("history::Workspace")
    }

    fn route_text(&self) -> String {
        format!("{:?}", self)
    }

    fn parse_route(text: &str) -> Option<Self> {
        match text {
            "Projects" => Some(Workspace::Projects),
            "Settings" => Some(Workspace::Settings),
            _ => None,
        }
    }
}

#[derive(Debug, Clone, Copy, PartialEq, Eq)]
enum Projects {
    List,
    Open(u64),
}

impl RouteSegment for Projects {
    fn route_type() -> String {
        String::from("history::Projects")
    }

    fn route_text(&self) -> String {
        format!("{:?}", self)
    }

    fn parse_route(text: &str) -> Option<Self> {
        if text == "List" {
            return Some(Projects::List);
        }
        let id = text.strip_prefix("Open(")?.strip_suffix(')')?;
        id.parse::<u64>().ok().map(Projects::Open)
    }
}

fn go(history: &mut NavigationHistory, path: NavPath) {
    if let Ok(Some(target)) = NavigationHistory::try_go(Some(history), path) {
        history.complete_go(target);
    }
}

#[test]
fn back_returns_to_the_previous_location() {
    let mut history = NavigationHistory::new();
    let first = NavPath::root(Workspace::Projects);
    let second = NavPath::root(Workspace::Projects).push(Projects::Open(42));

    go(&mut history, first.clone());
    go(&mut history, second.clone());
    assert_eq!(NavigationHistory::current(Some(&history)), Some(second));
    assert!(NavigationHistory::can_go_back(Some(&history)));

    let previous = NavigationHistory::try_back(Some(&history)).unwrap();
    assert_eq!(previous, first);
    history.complete_back();
    assert_eq!(NavigationHistory::current(Some(&history)), Some(first));
    assert!(!NavigationHistory::can_go_back(Some(&history)));
    assert_eq!(
        NavigationHistory::try_back(Some(&history)),
        Err(NavigationError::NoHistory)
    );
}

#[test]
fn going_to_the_current_path_dispatches_nothing() {
    let mut history = NavigationHistory::new();
    let path = NavPath::root(Workspace::Settings);

    go(&mut history, path.clone());
    assert_eq!(NavigationHistory::try_go(Some(&history), path.clone()), Ok(None));
    go(&mut history, path);
    assert!(!NavigationHistory::can_go_back(Some(&history)));
}

#[test]
fn go_refuses_empty_paths_and_missing_navigator() {
    let history = NavigationHistory::new();

    assert_eq!(
        NavigationHistory::try_go(Some(&history), NavPath::new()),
        Err(NavigationError::EmptyPath)
    );
    assert_eq!(
        NavigationHistory::try_go(None, NavPath::new()),
        Err(NavigationError::EmptyPath)
    );
    assert_eq!(
        NavigationHistory::try_go(None, NavPath::root(Workspace::Projects)),
        Err(NavigationError::NotInstalled)
    );
    assert_eq!(
        NavigationHistory::try_back(None),
        Err(NavigationError::NotInstalled)
    );
}

#[test]
fn relative_navigation_needs_a_current_location() {
    let history = NavigationHistory::new();

    assert_eq!(
        NavigationHistory::try_push(Some(&history), Projects::List),
        Err(NavigationError::NoCurrentLocation)
    );
    assert_eq!(
        NavigationHistory::try_push_path(Some(&history), NavPath::root(Projects::List)),
        Err(NavigationError::NoCurrentLocation)
    );
    assert_eq!(
        NavigationHistory::try_push_path(Some(&history), NavPath::new()),
        Err(NavigationError::EmptyPath)
    );
    assert_eq!(
        NavigationHistory::try_replace(Some(&history), Projects::List),
        Err(NavigationError::NoCurrentLocation)
    );
    assert_eq!(
        NavigationHistory::try_up(Some(&history)),
        Err(NavigationError::NoCurrentLocation)
    );
    assert_eq!(
        NavigationHistory::try_home(None),
        Err(NavigationError::NoCurrentLocation)
    );
    assert!(!NavigationHistory::can_go_up(Some(&history)));
    assert!(!NavigationHistory::is_current(Some(&history), &Projects::List));
    assert!(!NavigationHistory::contains(None, &Projects::List));
}

#[test]
fn push_appends_to_the_current_location() {
    let mut history = NavigationHistory::new();
    go(&mut history, NavPath::root(Workspace::Projects));

    let target = NavigationHistory::try_push(Some(&history), Projects::Open(42))
        .unwrap()
        .unwrap();
    assert_eq!(target, NavPath::root(Workspace::Projects).push(Projects::Open(42)));
    history.complete_go(target);

    assert!(NavigationHistory::is_current(Some(&history), &Projects::Open(42)));
    assert!(NavigationHistory::contains(Some(&history), &Workspace::Projects));

    let joined = NavigationHistory::try_push_path(Some(&history), NavPath::root(Projects::List))
        .unwrap()
        .unwrap();
    assert_eq!(joined.to_string(), "Projects/Open(42)/List");
}

#[test]
fn replace_swaps_the_last_segment_without_history() {
    let mut history = NavigationHistory::new();
    go(&mut history, NavPath::root(Workspace::Projects));
    go(
        &mut history,
        NavPath::root(Workspace::Projects).push(Projects::List),
    );

    let target = NavigationHistory::try_replace(Some(&history), Projects::Open(7)).unwrap();
    assert_eq!(target, NavPath::root(Workspace::Projects).push(Projects::Open(7)));
    history.complete_replace(target);

    assert!(NavigationHistory::is_current(Some(&history), &Projects::Open(7)));
    let previous = NavigationHistory::try_back(Some(&history)).unwrap();
    assert_eq!(previous, NavPath::root(Workspace::Projects));

    let at_root = NavigationHistory::try_replace(
        Some(&history),
        Workspace::Settings,
    );
    assert_eq!(
        at_root,
        Ok(NavPath::root(Workspace::Projects).push(Workspace::Settings))
    );
    assert_eq!(
        NavigationHistory::try_replace_path(Some(&history), NavPath::new()),
        Err(NavigationError::EmptyPath)
    );
    assert_eq!(
        NavigationHistory::try_replace_path(None, NavPath::root(Workspace::Settings)),
        Err(NavigationError::NotInstalled)
    );
}

#[test]
fn up_follows_structure_and_home_goes_to_root() {
    let mut history = NavigationHistory::new();
    let deep = NavPath::root(Workspace::Projects).push(Projects::Open(42));
    go(&mut history, deep);

    assert!(NavigationHistory::can_go_up(Some(&history)));
    let up = NavigationHistory::try_up(Some(&history)).unwrap().unwrap();
    assert_eq!(up, NavPath::root(Workspace::Projects));
    let home = NavigationHistory::try_home(Some(&history)).unwrap().unwrap();
    assert_eq!(home, NavPath::root(Workspace::Projects));

    history.complete_go(up);
    assert_eq!(
        NavigationHistory::try_up(Some(&history)),
        Err(NavigationError::AlreadyAtRoot)
    );
    assert_eq!(NavigationHistory::try_home(Some(&history)), Ok(None));
}

#[test]
fn clearing_history_keeps_the_current_location() {
    let mut history = NavigationHistory::new();
    go(&mut history, NavPath::root(Workspace::Projects));
    go(&mut history, NavPath::root(Workspace::Settings));

    assert_eq!(NavigationHistory::clear_history(Some(&mut history)), Ok(()));
    assert!(!NavigationHistory::can_go_back(Some(&history)));
    assert_eq!(
        NavigationHistory::current(Some(&history)),
        Some(NavPath::root(Workspace::Settings))
    );
    assert_eq!(
        NavigationHistory::clear_history(None),
        Err(NavigationError::NotInstalled)
    );
}

#[test]
fn second_install_is_refused() {
    let history = NavigationHistory::install(None).unwrap();
    assert!(NavigationHistory::current(Some(&history)).is_none());
    assert!(matches!(
        NavigationHistory::install(Some(&history)),
        Err(NavigationError::AlreadyInstalled)
    ));
}
