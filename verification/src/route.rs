use vstd::prelude::*;

verus! {

/// One route segment, as a path stores it: the name of the route's type and
/// the route's text.
pub struct RouteView {
    pub route_type: Seq<char>,
    pub text: Seq<char>,
}

/// A single strongly-typed route segment.
///
/// A path stores a route as the name of its type and its text; reading a
/// segment back as a route type checks the name and parses the text. Route
/// types implement this trait: the name must identify the type, and
/// `parse_route` must read back what `route_text` wrote.
pub trait RouteSegment: Sized {
    /// Returns the name that identifies this route type inside a path.
    fn route_type() -> String;

    /// Returns the text of this route value.
    fn route_text(&self) -> String;

    /// Reads a route of this type back from its text.
    fn parse_route(text: &str) -> Option<Self>;
}

/// `segment` is what storing `route` may give: its type's name and its text
/// as the route type's methods return them.
pub open spec fn stores_route<R: RouteSegment>(segment: RouteView, route: R) -> bool {
    exists|name: String, text: String|
        call_ensures(R::route_type, (), name) && call_ensures(R::route_text, (&route,), text)
            && segment == (RouteView { route_type: name@, text: text@ })
}

/// `route` is what route type `R` reads back from `text`.
pub open spec fn parses_to<R: RouteSegment>(text: Seq<char>, route: Option<R>) -> bool {
    exists|source: &str| source@ == text && call_ensures(R::parse_route, (source,), route)
}

/// `name` is a name route type `R` gives itself.
pub open spec fn names_type<R: RouteSegment>(name: Seq<char>) -> bool {
    exists|given: String| call_ensures(R::route_type, (), given) && given@ == name
}

/// Route type `R` behaves as a route type must: it always gives itself the
/// same name, it always writes a route as the same text, and it reads every
/// route back from the route's text.
pub open spec fn well_behaved<R: RouteSegment>() -> bool {
    &&& forall|first: String, second: String|
        #[trigger] call_ensures(R::route_type, (), first) && #[trigger] call_ensures(
            R::route_type,
            (),
            second,
        ) ==> first@ == second@
    &&& forall|route: R, first: String, second: String|
        #[trigger] call_ensures(R::route_text, (&route,), first) && #[trigger] call_ensures(
            R::route_text,
            (&route,),
            second,
        ) ==> first@ == second@
    &&& forall|route: R, text: String, source: &str, parsed: Option<R>|
        #[trigger] call_ensures(R::route_text, (&route,), text) && source@ == text@
            && #[trigger] call_ensures(R::parse_route, (source,), parsed) ==> parsed == Some(route)
}

/// For a route type that behaves as one must, a route is stored as one
/// segment only.
pub proof fn lemma_one_segment_per_route<R: RouteSegment>(
    route: R,
    first: RouteView,
    second: RouteView,
)
    requires
        well_behaved::<R>(),
        stores_route(first, route),
        stores_route(second, route),
    ensures
        first == second,
{
    let (name1, text1) = choose|name: String, text: String|
        call_ensures(R::route_type, (), name) && call_ensures(R::route_text, (&route,), text)
            && first == (RouteView { route_type: name@, text: text@ });
    let (name2, text2) = choose|name: String, text: String|
        call_ensures(R::route_type, (), name) && call_ensures(R::route_text, (&route,), text)
            && second == (RouteView { route_type: name@, text: text@ });
    assert(call_ensures(R::route_type, (), name1) && call_ensures(R::route_type, (), name2));
    assert(call_ensures(R::route_text, (&route,), text1) && call_ensures(
        R::route_text,
        (&route,),
        text2,
    ));
}

} // verus!
