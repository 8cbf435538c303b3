use gpui_navigation::{
    navigate_head, navigate_next, NavPath, NavigationError, PathError, RouteSegment,
};

#[derive(Debug, Clone, Copy, PartialEq, Eq)]
enum Root {
    Projects,
}

impl RouteSegment for Root {
    fn route_type() -> String {
        String::from("router::Root")
    }

    fn route_text(&self) -> String {
        format!("{:?}", self)
    }

    fn parse_route(text: &str) -> Option<Self> {
        (text == "Projects").then_some(Root::Projects)
    }
}

#[derive(Debug, Clone, Copy, PartialEq, Eq)]
enum Leaf {
    Open(u64),
}

impl RouteSegment for Leaf {
    fn route_type() -> String {
        String::from("router::Leaf")
    }

    fn route_text(&self) -> String {
        format!("{:?}", self)
    }

    fn parse_route(text: &str) -> Option<Self> {
        let id = text.strip_prefix("Open(")?.strip_suffix(')')?;
        id.parse::<u64>().ok().map(Leaf::Open)
    }
}

#[test]
fn dispatch_consumes_one_segment() {
    let path = NavPath::root(Root::Projects).push(Leaf::Open(3));

    let (route, rest) = navigate_head::<Root>(&path).unwrap();
    assert_eq!(route, Root::Projects);
    assert_eq!(rest, NavPath::root(Leaf::Open(3)));

    let (leaf, rest) = navigate_head::<Leaf>(&rest).unwrap();
    assert_eq!(leaf, Leaf::Open(3));
    assert!(rest.is_empty());
}

#[test]
fn dispatch_refuses_empty_and_mistyped_paths() {
    assert_eq!(
        navigate_head::<Root>(&NavPath::new()),
        Err(NavigationError::EmptyPath)
    );
    assert_eq!(
        navigate_head::<Leaf>(&NavPath::root(Root::Projects)),
        Err(NavigationError::Path(PathError::TypeMismatch {
            index: 0,
            expected: String::from("router::Leaf"),
            actual: String::from("router::Root"),
        }))
    );
}

#[test]
fn dispatch_continues_only_with_a_child_router() {
    let remaining = NavPath::root(Leaf::Open(3));

    assert_eq!(navigate_next(String::from("Child"), &NavPath::new(), Some(1u8)), Ok(None));
    assert_eq!(navigate_next::<u8>(String::from("Child"), &NavPath::new(), None), Ok(None));
    assert_eq!(navigate_next(String::from("Child"), &remaining, Some(1u8)), Ok(Some(1u8)));
    assert_eq!(
        navigate_next::<u8>(String::from("Child"), &remaining, None),
        Err(NavigationError::UnexpectedTrailingSegments {
            router: String::from("Child"),
            remaining: 1,
        })
    );
}

#[test]
fn path_errors_convert_into_navigation_errors() {
    let error = PathError::TypeMismatch {
        index: 2,
        expected: String::from("a"),
        actual: String::from("b"),
    };
    assert_eq!(NavigationError::from(error.clone()), NavigationError::Path(error));
}
