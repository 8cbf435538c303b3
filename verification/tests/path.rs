use gpui_navigation::{NavPath, PathError, RouteSegment};

#[derive(Debug, Clone, Copy, PartialEq, Eq)]
enum Section {
    Projects,
}

impl RouteSegment for Section {
    fn route_type() -> String {
        String::from("path::Section")
    }

    fn route_text(&self) -> String {
        format!("{:?}", self)
    }

    fn parse_route(text: &str) -> Option<Self> {
        match text {
            "Projects" => Some(Section::Projects),
            _ => None,
        }
    }
}

#[derive(Debug, Clone, Copy, PartialEq, Eq)]
enum Project {
    Open(u64),
    Overview,
}

impl RouteSegment for Project {
    fn route_type() -> String {
        String::from("path::Project")
    }

    fn route_text(&self) -> String {
        format!("{:?}", self)
    }

    fn parse_route(text: &str) -> Option<Self> {
        if text == "Overview" {
            return Some(Project::Overview);
        }
        let id = text.strip_prefix("Open(")?.strip_suffix(')')?;
        id.parse::<u64>().ok().map(Project::Open)
    }
}

#[test]
fn builds_and_joins_paths() {
    let path = NavPath::root(Section::Projects).push(Project::Open(42));

    assert_eq!(path.len(), 2);
    assert_eq!(path.first::<Section>().ok(), Some(Some(Section::Projects)));
    assert_eq!(path.last::<Project>().ok(), Some(Some(Project::Open(42))));

    let suffix = NavPath::new().push(Project::Open(7));
    let joined = path.join(suffix);

    assert_eq!(joined.len(), 3);
    assert_eq!(joined.at::<Project>(2).ok(), Some(Some(Project::Open(7))));
}

#[test]
fn parent_and_root_are_structural_operations() {
    let path = NavPath::root(Section::Projects).push(Project::Open(42));

    assert_eq!(path.parent().as_ref().map(NavPath::len), Some(1));
    assert_eq!(path.root_path().as_ref().map(NavPath::len), Some(1));
    assert!(path
        .parent()
        .is_some_and(|parent| { parent.last_is(&Section::Projects) }));
}

#[test]
fn type_mismatch_is_reported() {
    let path = NavPath::root(Section::Projects);

    let result = path.first::<Project>();

    assert!(matches!(
        result,
        Err(PathError::TypeMismatch { index: 0, .. })
    ));
}

#[test]
fn contains_and_last_match_values() {
    let path = NavPath::root(Section::Projects).push(Project::Open(42));

    assert!(path.contains(&Section::Projects));
    assert!(path.last_is(&Project::Open(42)));
    assert!(!path.last_is(&Project::Overview));
}

#[test]
fn segments_store_type_name_and_text() {
    let path = NavPath::root(Section::Projects).push(Project::Open(42));

    assert_eq!(path.read_segment(0, "path::Section"), Ok(Some("Projects")));
    assert_eq!(path.read_segment(1, "path::Project"), Ok(Some("Open(42)")));
    assert_eq!(path.read_segment(2, "path::Project"), Ok(None));
    assert_eq!(
        path.read_segment(1, "path::Section"),
        Err(PathError::TypeMismatch {
            index: 1,
            expected: String::from("path::Section"),
            actual: String::from("path::Project"),
        })
    );
}

#[test]
fn pushed_segment_reads_back() {
    let path = NavPath::new().push_segment(String::from("path::Project"), String::from("Overview"));

    assert_eq!(path.len(), 1);
    assert_eq!(path.first::<Project>(), Ok(Some(Project::Overview)));
    assert!(path.last_is_segment("path::Project", "Overview"));
    assert!(path.contains_segment("path::Project", "Overview"));
    assert!(!path.contains_segment("path::Section", "Overview"));
}

#[test]
fn unparsable_text_is_a_type_mismatch() {
    let path = NavPath::new().push_segment(String::from("path::Project"), String::from("Closed"));

    assert_eq!(
        path.at::<Project>(0),
        Err(PathError::TypeMismatch {
            index: 0,
            expected: String::from("path::Project"),
            actual: String::from("path::Project"),
        })
    );
}

#[test]
fn empty_path_reads_nothing() {
    let path = NavPath::new();

    assert!(path.is_empty());
    assert_eq!(path.first::<Section>(), Ok(None));
    assert_eq!(path.last::<Section>(), Ok(None));
    assert_eq!(path.at::<Section>(3), Ok(None));
    assert!(path.head::<Section>().ok().is_some_and(|head| head.is_none()));
    assert!(path.parent().is_none());
    assert!(path.root_path().is_none());
    assert!(path.tail().is_empty());
    assert!(!path.last_is(&Section::Projects));
    assert!(!path.contains(&Section::Projects));
    assert_eq!(path.to_string(), "");
}

#[test]
fn head_splits_first_route_from_the_rest() {
    let path = NavPath::root(Section::Projects)
        .push(Project::Open(42))
        .push(Project::Overview);

    let (route, rest) = path.head::<Section>().ok().flatten().unwrap();
    assert_eq!(route, Section::Projects);
    assert_eq!(rest.len(), 2);
    assert_eq!(rest.first::<Project>(), Ok(Some(Project::Open(42))));
    assert_eq!(rest, path.tail());

    assert!(matches!(
        path.head::<Project>(),
        Err(PathError::TypeMismatch { index: 0, .. })
    ));
}

#[test]
fn parent_of_three_segments_drops_the_last() {
    let path = NavPath::root(Section::Projects)
        .push(Project::Open(42))
        .push(Project::Overview);

    let parent = path.parent().unwrap();
    assert_eq!(parent, NavPath::root(Section::Projects).push(Project::Open(42)));
    assert!(parent.last_is(&Project::Open(42)));
    assert!(NavPath::root(Section::Projects).parent().is_none());
    assert_eq!(path.root_path(), Some(NavPath::root(Section::Projects)));
}

#[test]
fn path_displays_segments_joined_by_slash() {
    let path = NavPath::root(Section::Projects)
        .push(Project::Open(42))
        .push(Project::Overview);

    assert_eq!(path.to_string(), "Projects/Open(42)/Overview");
    assert_eq!(NavPath::root(Section::Projects).to_string(), "Projects");
}

#[test]
fn equality_clone_and_default() {
    let path = NavPath::root(Section::Projects).push(Project::Open(42));
    let copy = path.clone();

    assert_eq!(copy, path);
    assert!(copy.same_as(&path));
    assert_ne!(path, NavPath::root(Section::Projects).push(Project::Open(7)));
    assert_eq!(NavPath::default(), NavPath::new());
    assert_eq!(path.duplicate(), path);
}

#[test]
fn join_keeps_order_and_is_associative() {
    let a = NavPath::root(Section::Projects);
    let b = NavPath::root(Project::Open(1));
    let c = NavPath::root(Project::Open(2));

    let left = a.clone().join(b.clone()).join(c.clone());
    let right = a.clone().join(b.join(c));

    assert_eq!(left, right);
    assert_eq!(left.to_string(), "Projects/Open(1)/Open(2)");
    assert_eq!(a.clone().join(NavPath::new()), a);
}

#[test]
fn contains_finds_any_segment() {
    let path = NavPath::root(Section::Projects)
        .push(Project::Open(42))
        .push(Project::Overview);

    assert!(path.contains(&Project::Open(42)));
    assert!(path.contains(&Project::Overview));
    assert!(!path.contains(&Project::Open(7)));
    assert!(!path.last_is(&Project::Open(42)));
}

#[test]
fn a_route_converts_into_a_root_path() {
    let converted: NavPath = Project::Open(42).into();

    assert_eq!(converted, NavPath::root(Project::Open(42)));
    assert_eq!(NavPath::from(Section::Projects), NavPath::root(Section::Projects));
    assert_eq!(converted.len(), 1);
    assert!(converted.last_is(&Project::Open(42)));
    assert!(converted.contains(&Project::Open(42)));
    assert_eq!(converted.parent(), None);
}

#[test]
fn pushed_route_is_last_and_contained() {
    let path = NavPath::root(Section::Projects).push(Project::Open(3));

    assert!(path.last_is(&Project::Open(3)));
    assert!(path.contains(&Project::Open(3)));
    assert!(path.contains(&Section::Projects));
    assert!(!path.last_is(&Project::Open(4)));
}
