use vstd::prelude::*;

use crate::path::{typed_read, NavPath, PathError};
use crate::route::RouteSegment;

verus! {

/// Errors produced by navigation operations.
#[derive(Debug, Clone, PartialEq, Eq)]
pub enum NavigationError {
    /// No global navigator has been installed in the application.
    NotInstalled,
    /// An application attempted to install more than one navigator.
    AlreadyInstalled,
    /// An absolute navigation operation received an empty path.
    EmptyPath,
    /// A router expected a different route segment type.
    Path(PathError),
    /// A router consumed its route but the path still contained segments and
    /// the router did not provide a child router.
    UnexpectedTrailingSegments {
        /// Type name of the router that stopped navigation.
        router: String,
        /// Number of unconsumed segments.
        remaining: usize,
    },
    /// Relative navigation was requested before an initial location existed.
    NoCurrentLocation,
    /// Back navigation was requested without history.
    NoHistory,
    /// Up navigation was requested while already at the root.
    AlreadyAtRoot,
}

impl From<PathError> for NavigationError {
    fn from(error: PathError) -> (converted: Self) {
        NavigationError::Path(error)
    }
}

impl vstd::std_specs::convert::FromSpecImpl<PathError> for NavigationError {
    open spec fn obeys_from_spec() -> bool {
        true
    }

    open spec fn from_spec(error: PathError) -> Self {
        NavigationError::Path(error)
    }
}

/// First step of dispatching `path` into a router whose route type is `R`:
/// consumes exactly one segment.
///
/// An empty path cannot be dispatched; a first segment of another type is a
/// path error; otherwise the router receives the first route and the rest
/// of the path.
pub fn navigate_head<R: RouteSegment>(path: &NavPath) -> (step: Result<
    (R, NavPath),
    NavigationError,
>)
    ensures
        path@.len() == 0 ==> step matches Err(NavigationError::EmptyPath),
        path@.len() > 0 ==> match step {
            Ok((route, rest)) => {
                &&& typed_read::<R>(path@, 0, Ok(Some(route)))
                &&& rest@ == path@.drop_first()
            },
            Err(NavigationError::Path(error)) => typed_read::<R>(path@, 0, Err(error)),
            Err(_) => false,
        },
{
    match path.head::<R>() {
        Ok(Some(consumed)) => Ok(consumed),
        Ok(None) => Err(NavigationError::EmptyPath),
        Err(error) => Err(NavigationError::from(error)),
    }
}

/// Second step of dispatching: after a router handled its segment, decides
/// where the `remaining` path goes.
///
/// A fully consumed path ends the dispatch (`Ok(None)`) whatever the router
/// returned; otherwise the router must have provided the next router
/// (`next`), which receives the remainder, or dispatch fails with the number
/// of unconsumed segments.
pub fn navigate_next<H>(router: String, remaining: &NavPath, next: Option<H>) -> (step: Result<
    Option<H>,
    NavigationError,
>)
    ensures
        remaining@.len() == 0 ==> step matches Ok(None),
        remaining@.len() > 0 && next is Some ==> step == Ok::<Option<H>, NavigationError>(next),
        remaining@.len() > 0 && next is None ==> {
            &&& step matches Err(
                NavigationError::UnexpectedTrailingSegments { router: name, remaining: n },
            )
            &&& name@ == router@
            &&& n == remaining@.len()
        },
{
    if remaining.is_empty() {
        return Ok(None);
    }
    match next {
        Some(handle) => Ok(Some(handle)),
        None => Err(
            NavigationError::UnexpectedTrailingSegments { router, remaining: remaining.len() },
        ),
    }
}

} // verus!
