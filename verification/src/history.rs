use vstd::prelude::*;

use crate::path::NavPath;
use crate::route::{stores_route, RouteSegment, RouteView};
use crate::router::NavigationError;

verus! {

/// The navigation state as a value: the current location and the locations
/// that back navigation returns to, most recent last.
pub struct HistoryView {
    pub current: Option<Seq<RouteView>>,
    pub back: Seq<Seq<RouteView>>,
}

/// Every location in `history` is a non-empty path.
pub open spec fn history_wf(history: HistoryView) -> bool {
    &&& history.current matches Some(path) ==> path.len() > 0
    &&& forall|i: int| 0 <= i < history.back.len() ==> #[trigger] history.back[i].len() > 0
}

/// The state after navigating to `path`: it becomes current, and the
/// previous location, if any, enters the history.
pub open spec fn after_go(history: HistoryView, path: Seq<RouteView>) -> HistoryView {
    HistoryView {
        current: Some(path),
        back: match history.current {
            Some(previous) => history.back.push(previous),
            None => history.back,
        },
    }
}

/// The state after navigating back: the most recent history entry becomes
/// current and leaves the history.
pub open spec fn after_back(history: HistoryView) -> HistoryView {
    HistoryView { current: Some(history.back.last()), back: history.back.drop_last() }
}

/// The state after replacing the current location with `path`: history is
/// untouched.
pub open spec fn after_replace(history: HistoryView, path: Seq<RouteView>) -> HistoryView {
    HistoryView { current: Some(path), back: history.back }
}

/// The structural parent of `path`, or the empty path at the root.
pub open spec fn parent_or_empty(path: Seq<RouteView>) -> Seq<RouteView> {
    if path.len() > 1 {
        path.drop_last()
    } else {
        Seq::empty()
    }
}

/// The current location of an installed navigator, or none.
pub open spec fn current_of(navigator: Option<&NavigationHistory>) -> Option<Seq<RouteView>> {
    match navigator {
        Some(history) => history@.current,
        None => None,
    }
}

/// What navigating to `target` does, given the installed navigator: an
/// empty target is refused, then an absent navigator; a target that is
/// already current needs no dispatch (`Ok(None)`); any other target is
/// dispatched (`Ok(Some(target))`).
pub open spec fn go_outcome(
    navigator: Option<&NavigationHistory>,
    target: Seq<RouteView>,
    result: Result<Option<NavPath>, NavigationError>,
) -> bool {
    if target.len() == 0 {
        result matches Err(NavigationError::EmptyPath)
    } else if navigator is None {
        result matches Err(NavigationError::NotInstalled)
    } else if current_of(navigator) == Some(target) {
        result matches Ok(None)
    } else {
        result matches Ok(Some(path)) && path@ == target
    }
}

/// Navigation state of the application-wide navigator.
///
/// Navigation alternates decisions, made here, with dispatching a path into
/// the application's routers, done by the caller: a `try_*` function says
/// what to dispatch, and the matching `complete_*` function records a
/// dispatch that succeeded.
#[derive(Debug)]
pub struct NavigationHistory {
    current: Option<NavPath>,
    back_stack: Vec<NavPath>,
}

impl View for NavigationHistory {
    type V = HistoryView;

    closed spec fn view(&self) -> HistoryView {
        HistoryView {
            current: match self.current {
                Some(path) => Some(path@),
                None => None,
            },
            back: self.back_stack@.map_values(|path: NavPath| path@),
        }
    }
}

impl NavigationHistory {
    #[verifier::type_invariant]
    spec fn inv(&self) -> bool {
        history_wf(self@)
    }

    /// A navigator with no current location and no history.
    pub fn new() -> (history: Self)
        ensures
            history@.current is None,
            history@.back.len() == 0,
    {
        let history = NavigationHistory { current: None, back_stack: Vec::new() };
        assert(history@.back =~= Seq::<Seq<RouteView>>::empty());
        history
    }

    /// Installs a navigator unless one is installed already.
    pub fn install(existing: Option<&NavigationHistory>) -> (result: Result<Self, NavigationError>)
        ensures
            existing is Some ==> result matches Err(NavigationError::AlreadyInstalled),
            existing is None ==> (result matches Ok(history) && {
                &&& history@.current is None
                &&& history@.back.len() == 0
            }),
    {
        if existing.is_some() {
            return Err(NavigationError::AlreadyInstalled);
        }
        Ok(Self::new())
    }

    /// Decides how to navigate to the absolute path `path`.
    pub fn try_go(navigator: Option<&NavigationHistory>, path: NavPath) -> (result: Result<
        Option<NavPath>,
        NavigationError,
    >)
        ensures
            go_outcome(navigator, path@, result),
            result matches Ok(None) ==> current_of(navigator) == Some(path@),
            path@.len() > 0 && navigator is Some && current_of(navigator) != Some(path@) ==> (
            result matches Ok(Some(target)) && target@ == path@),
    {
        if path.is_empty() {
            return Err(NavigationError::EmptyPath);
        }
        match navigator {
            None => Err(NavigationError::NotInstalled),
            Some(history) => {
                let already_current = match &history.current {
                    Some(current) => current.same_as(&path),
                    None => false,
                };
                if already_current {
                    Ok(None)
                } else {
                    Ok(Some(path))
                }
            },
        }
    }

    /// Records a successful dispatch of `path` decided by a `try_*` that
    /// navigates: `path` becomes current and the previous location enters
    /// the history.
    pub fn complete_go(&mut self, path: NavPath)
        requires
            path@.len() > 0,
        ensures
            final(self)@ == after_go(old(self)@, path@),
    {
        proof {
            use_type_invariant(&*self);
            lemma_transitions_keep_wf(self@, path@);
        }
        let ghost before = self@;
        let mut back_stack: Vec<NavPath> = Vec::new();
        std::mem::swap(&mut back_stack, &mut self.back_stack);
        let mut current: Option<NavPath> = Some(path);
        std::mem::swap(&mut current, &mut self.current);
        match current {
            Some(previous) => {
                back_stack.push(previous);
            },
            None => {},
        }
        let ghost expected = after_go(before, path@);
        assert(back_stack@.map_values(|p: NavPath| p@) =~= expected.back);
        self.back_stack = back_stack;
    }

    /// Returns the current location.
    pub fn current(navigator: Option<&NavigationHistory>) -> (current: Option<NavPath>)
        ensures
            current is Some <==> current_of(navigator) is Some,
            current matches Some(path) ==> current_of(navigator) == Some(path@),
    {
        match navigator {
            Some(history) => match &history.current {
                Some(path) => Some(path.duplicate()),
                None => None,
            },
            None => None,
        }
    }

    /// Decides how to append one route segment to the current location.
    pub fn try_push<R: RouteSegment>(navigator: Option<&NavigationHistory>, route: R) -> (result:
        Result<Option<NavPath>, NavigationError>)
        ensures
            current_of(navigator) is None ==> result matches Err(
                NavigationError::NoCurrentLocation,
            ),
            current_of(navigator) matches Some(current) ==> exists|segment: RouteView|
                #[trigger] stores_route(segment, route) && go_outcome(
                    navigator,
                    current.push(segment),
                    result,
                ),
    {
        match Self::current(navigator) {
            None => Err(NavigationError::NoCurrentLocation),
            Some(current) => {
                let ghost before = current@;
                let target = current.push(route);
                assert(target@ =~= before.push(target@.last()));
                Self::try_go(navigator, target)
            },
        }
    }

    /// Decides how to append the relative path `path` to the current
    /// location.
    pub fn try_push_path(navigator: Option<&NavigationHistory>, path: NavPath) -> (result: Result<
        Option<NavPath>,
        NavigationError,
    >)
        ensures
            path@.len() == 0 ==> result matches Err(NavigationError::EmptyPath),
            path@.len() > 0 && current_of(navigator) is None ==> result matches Err(
                NavigationError::NoCurrentLocation,
            ),
            path@.len() > 0 ==> (current_of(navigator) matches Some(current) ==> go_outcome(
                navigator,
                current + path@,
                result,
            )),
    {
        if path.is_empty() {
            return Err(NavigationError::EmptyPath);
        }
        match Self::current(navigator) {
            None => Err(NavigationError::NoCurrentLocation),
            Some(current) => Self::try_go(navigator, current.join(path)),
        }
    }

    /// Decides how to replace the complete current location with `path`:
    /// gives the path to dispatch.
    pub fn try_replace_path(navigator: Option<&NavigationHistory>, path: NavPath) -> (result:
        Result<NavPath, NavigationError>)
        ensures
            path@.len() == 0 ==> result matches Err(NavigationError::EmptyPath),
            path@.len() > 0 && navigator is None ==> result matches Err(
                NavigationError::NotInstalled,
            ),
            path@.len() > 0 && navigator is Some ==> (result matches Ok(target) && target@
                == path@),
    {
        if path.is_empty() {
            return Err(NavigationError::EmptyPath);
        }
        if navigator.is_none() {
            return Err(NavigationError::NotInstalled);
        }
        Ok(path)
    }

    /// Decides how to replace the current final route segment with `route`:
    /// gives the path to dispatch, the current location's structural parent
    /// (or nothing, at the root) followed by `route`.
    pub fn try_replace<R: RouteSegment>(
        navigator: Option<&NavigationHistory>,
        route: R,
    ) -> (result: Result<NavPath, NavigationError>)
        ensures
            current_of(navigator) is None ==> result matches Err(
                NavigationError::NoCurrentLocation,
            ),
            current_of(navigator) matches Some(current) ==> exists|segment: RouteView|
                #[trigger] stores_route(segment, route) && (result matches Ok(target) && target@
                    == parent_or_empty(current).push(segment)),
            current_of(navigator) matches Some(current) ==> (result matches Ok(target) && {
                &&& target@.len() > 0
                &&& stores_route(target@.last(), route)
                &&& current.len() > 1 ==> target@.drop_last() == current.drop_last()
                &&& current.len() <= 1 ==> target@.len() == 1
            }),
    {
        match Self::current(navigator) {
            None => Err(NavigationError::NoCurrentLocation),
            Some(current) => {
                let parent = match current.parent() {
                    Some(parent) => parent,
                    None => NavPath::new(),
                };
                Self::try_replace_path(navigator, parent.push(route))
            },
        }
    }

    /// Records a successful dispatch of a replacement: `path` becomes
    /// current and history is untouched.
    pub fn complete_replace(&mut self, path: NavPath)
        requires
            path@.len() > 0,
        ensures
            final(self)@ == after_replace(old(self)@, path@),
            final(self)@.current == Some(path@),
            final(self)@.back == old(self)@.back,
    {
        proof {
            use_type_invariant(&*self);
            lemma_transitions_keep_wf(self@, path@);
        }
        self.current = Some(path);
    }

    /// Decides how to navigate back: gives the most recent history entry to
    /// dispatch.
    pub fn try_back(navigator: Option<&NavigationHistory>) -> (result: Result<
        NavPath,
        NavigationError,
    >)
        ensures
            navigator is None ==> result matches Err(NavigationError::NotInstalled),
            navigator matches Some(history) ==> (history@.back.len() == 0 ==> result matches Err(
                NavigationError::NoHistory,
            )),
            navigator matches Some(history) ==> (history@.back.len() > 0 ==> (result matches Ok(
                previous,
            ) && previous@ == history@.back.last())),
    {
        match navigator {
            None => Err(NavigationError::NotInstalled),
            Some(history) => {
                let len = history.back_stack.len();
                if len == 0 {
                    Err(NavigationError::NoHistory)
                } else {
                    Ok(history.back_stack[len - 1].duplicate())
                }
            },
        }
    }

    /// Records a successful back navigation: the most recent history entry
    /// becomes current and leaves the history.
    pub fn complete_back(&mut self)
        requires
            old(self)@.back.len() > 0,
        ensures
            final(self)@ == after_back(old(self)@),
    {
        proof {
            use_type_invariant(&*self);
            lemma_transitions_keep_wf(self@, self@.back.last());
        }
        let ghost before = self@;
        let mut back_stack: Vec<NavPath> = Vec::new();
        std::mem::swap(&mut back_stack, &mut self.back_stack);
        let previous = back_stack.pop();
        assert(back_stack@.map_values(|p: NavPath| p@) =~= before.back.drop_last());
        let mut current = previous;
        std::mem::swap(&mut current, &mut self.current);
        self.back_stack = back_stack;
    }

    /// Decides how to move one structural level toward the root: the target
    /// is the current location's structural parent.
    pub fn try_up(navigator: Option<&NavigationHistory>) -> (result: Result<
        Option<NavPath>,
        NavigationError,
    >)
        ensures
            current_of(navigator) is None ==> result matches Err(
                NavigationError::NoCurrentLocation,
            ),
            current_of(navigator) matches Some(current) ==> (current.len() <= 1
                ==> result matches Err(NavigationError::AlreadyAtRoot)),
            current_of(navigator) matches Some(current) ==> (current.len() > 1 ==> go_outcome(
                navigator,
                current.drop_last(),
                result,
            )),
    {
        match Self::current(navigator) {
            None => Err(NavigationError::NoCurrentLocation),
            Some(current) => match current.parent() {
                None => Err(NavigationError::AlreadyAtRoot),
                Some(parent) => Self::try_go(navigator, parent),
            },
        }
    }

    /// Decides how to navigate to the root segment of the current location.
    pub fn try_home(navigator: Option<&NavigationHistory>) -> (result: Result<
        Option<NavPath>,
        NavigationError,
    >)
        ensures
            current_of(navigator) is None ==> result matches Err(
                NavigationError::NoCurrentLocation,
            ),
            current_of(navigator) matches Some(current) ==> (current.len() == 0
                ==> result matches Err(NavigationError::EmptyPath)),
            current_of(navigator) matches Some(current) ==> (current.len() > 0 ==> go_outcome(
                navigator,
                seq![current[0]],
                result,
            )),
    {
        match Self::current(navigator) {
            None => Err(NavigationError::NoCurrentLocation),
            Some(current) => match current.root_path() {
                None => Err(NavigationError::EmptyPath),
                Some(root) => Self::try_go(navigator, root),
            },
        }
    }

    /// Returns whether a previous history entry exists.
    pub fn can_go_back(navigator: Option<&NavigationHistory>) -> (can: bool)
        ensures
            can == (navigator matches Some(history) && history@.back.len() > 0),
    {
        match navigator {
            Some(history) => history.back_stack.len() > 0,
            None => false,
        }
    }

    /// Returns whether the current location has a structural parent.
    pub fn can_go_up(navigator: Option<&NavigationHistory>) -> (can: bool)
        ensures
            can == (current_of(navigator) matches Some(current) && current.len() > 1),
    {
        match Self::current(navigator) {
            Some(current) => current.parent().is_some(),
            None => false,
        }
    }

    /// Returns whether `route` is the current final segment.
    pub fn is_current<R: RouteSegment>(
        navigator: Option<&NavigationHistory>,
        route: &R,
    ) -> (at_last: bool)
        ensures
            current_of(navigator) is None ==> !at_last,
            current_of(navigator) matches Some(current) ==> exists|segment: RouteView|
                #[trigger] stores_route(segment, *route) && at_last == (current.len() > 0
                    && current.last() == segment),
    {
        match Self::current(navigator) {
            Some(current) => current.last_is(route),
            None => false,
        }
    }

    /// Returns whether `route` occurs anywhere in the current location.
    pub fn contains<R: RouteSegment>(
        navigator: Option<&NavigationHistory>,
        route: &R,
    ) -> (found: bool)
        ensures
            current_of(navigator) is None ==> !found,
            current_of(navigator) matches Some(current) ==> exists|segment: RouteView|
                #[trigger] stores_route(segment, *route) && found == current.contains(segment),
    {
        match Self::current(navigator) {
            Some(current) => current.contains(route),
            None => false,
        }
    }

    /// Clears navigation history; the current location stays.
    pub fn clear_history(navigator: Option<&mut NavigationHistory>) -> (result: Result<
        (),
        NavigationError,
    >)
        ensures
            navigator is None ==> result matches Err(NavigationError::NotInstalled),
            navigator is Some ==> {
                &&& result is Ok
                &&& final(navigator->Some_0)@.current == old(navigator->Some_0)@.current
                &&& final(navigator->Some_0)@.back.len() == 0
            },
    {
        match navigator {
            None => Err(NavigationError::NotInstalled),
            Some(history) => {
                proof {
                    use_type_invariant(&*history);
                }
                history.back_stack = Vec::new();
                assert(history@.back =~= Seq::<Seq<RouteView>>::empty());
                Ok(())
            },
        }
    }
}

/// Back navigation undoes navigation: after navigating from a location to
/// another path, going back targets that location and restores the state
/// exactly as it was.
pub proof fn lemma_back_undoes_go(history: HistoryView, path: Seq<RouteView>)
    requires
        history.current is Some,
    ensures
        after_go(history, path).back.len() > 0,
        after_go(history, path).back.last() == history.current.unwrap(),
        after_back(after_go(history, path)) == history,
{
    let gone = after_go(history, path);
    assert(gone.back.drop_last() =~= history.back);
}

/// Every navigation keeps every held location a non-empty path.
pub proof fn lemma_transitions_keep_wf(history: HistoryView, path: Seq<RouteView>)
    requires
        history_wf(history),
        path.len() > 0,
    ensures
        history_wf(after_go(history, path)),
        history_wf(after_replace(history, path)),
        history.back.len() > 0 ==> history_wf(after_back(history)),
{
    let gone = after_go(history, path);
    assert forall|i: int| 0 <= i < gone.back.len() implies #[trigger] gone.back[i].len() > 0
    by {
        if i < history.back.len() {
            assert(gone.back[i] == history.back[i]);
        }
    }
    if history.back.len() > 0 {
        let back = after_back(history);
        assert(history.back[history.back.len() - 1].len() > 0);
        assert forall|i: int| 0 <= i < back.back.len() implies #[trigger] back.back[i].len() > 0
        by {
            assert(back.back[i] == history.back[i]);
        }
    }
}

/// Replacing the current location never changes the history, and a
/// navigation from a location grows the history by exactly that location.
pub proof fn lemma_history_changes(history: HistoryView, path: Seq<RouteView>)
    ensures
        after_replace(history, path).back == history.back,
        after_replace(history, path).current == Some(path),
        history.current is Some ==> after_go(history, path).back == history.back.push(
            history.current.unwrap(),
        ),
        history.current is None ==> after_go(history, path).back == history.back,
        after_go(history, path).current == Some(path),
{
}

/// Navigating to a path is skipped exactly when that path is the current
/// location: a target that differs from the current location anywhere, or
/// a navigator with no current location, always dispatches the target
/// itself.
pub proof fn lemma_go_skips_only_current(
    navigator: Option<&NavigationHistory>,
    target: Seq<RouteView>,
    result: Result<Option<NavPath>, NavigationError>,
)
    requires
        go_outcome(navigator, target, result),
    ensures
        result matches Ok(None) ==> current_of(navigator) == Some(target),
        result matches Ok(Some(dispatched)) ==> dispatched@ == target && current_of(navigator)
            != Some(target),
        target.len() > 0 && navigator is Some ==> (result matches Ok(None) <==> current_of(
            navigator,
        ) == Some(target)),
        forall|i: int|
            #![trigger current_of(navigator).unwrap()[i]]
            target.len() > 0 && navigator is Some && current_of(navigator) is Some && 0 <= i
                < target.len() && current_of(navigator).unwrap()[i] != target[i] ==> (
            result matches Ok(Some(dispatched)) && dispatched@ == target),
        target.len() > 0 && navigator is Some && current_of(navigator) is Some
            && current_of(navigator).unwrap().len() != target.len() ==> (result matches Ok(
            Some(dispatched),
        ) && dispatched@ == target),
{
}

/// The parent used by a replacement is the structural parent: a path
/// extended by a segment has the path as its parent, a path of more than
/// one segment is its parent followed by its last segment, and a path of
/// at most one segment has the empty parent.
pub proof fn lemma_parent_or_empty_is_structural(path: Seq<RouteView>, segment: RouteView)
    ensures
        path.len() > 0 ==> parent_or_empty(path.push(segment)) == path,
        path.len() > 1 ==> parent_or_empty(path).push(path.last()) == path,
        path.len() > 1 ==> parent_or_empty(path).len() == path.len() - 1,
        path.len() <= 1 ==> parent_or_empty(path).len() == 0,
        parent_or_empty(path).push(segment).drop_last() == parent_or_empty(path),
{
    assert(path.push(segment).drop_last() =~= path);
    if path.len() > 1 {
        assert(path.drop_last().push(path.last()) =~= path);
    }
    assert(parent_or_empty(path).push(segment).drop_last() =~= parent_or_empty(path));
}

/// A replacement records exactly the replacing path as the current
/// location, whatever the state before, and leaves the history as it was;
/// replacing twice is the same as replacing once with the second path.
pub proof fn lemma_replace_records_path(
    history: HistoryView,
    path: Seq<RouteView>,
    other: Seq<RouteView>,
)
    ensures
        after_replace(history, path).current == Some(path),
        after_replace(history, path).back == history.back,
        after_replace(after_replace(history, other), path) == after_replace(history, path),
{
}

} // verus!
