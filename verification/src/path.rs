use vstd::prelude::*;

use crate::route::{
    lemma_one_segment_per_route, names_type, parses_to, stores_route, well_behaved, RouteSegment,
    RouteView,
};

verus! {

/// Errors produced while inspecting or consuming a navigation path.
#[derive(Debug, Clone, PartialEq, Eq)]
pub enum PathError {
    /// The requested route type does not match the segment at `index`.
    TypeMismatch {
        /// Zero-based path index.
        index: usize,
        /// Route type requested by the caller.
        expected: String,
        /// Route type actually stored at the index.
        actual: String,
    },
}

/// `error` reports that segment `index` of `path` is not of the route type
/// named `expected`.
pub open spec fn mismatch_at(
    path: Seq<RouteView>,
    index: int,
    expected: Seq<char>,
    error: PathError,
) -> bool {
    match error {
        PathError::TypeMismatch { index: at, expected: wanted, actual } => {
            &&& at == index
            &&& wanted@ == expected
            &&& actual@ == path[index].route_type
        },
    }
}

/// `result` is what reading segment `index` of `path` as the route type
/// named `route_type` gives: nothing outside the path, the segment's text
/// when the segment has that type, and a type mismatch otherwise.
pub open spec fn segment_read(
    path: Seq<RouteView>,
    index: int,
    route_type: Seq<char>,
    result: Result<Option<&str>, PathError>,
) -> bool {
    if index < 0 || index >= path.len() {
        result matches Ok(None)
    } else if path[index].route_type == route_type {
        result matches Ok(Some(text)) && text@ == path[index].text
    } else {
        result matches Err(error) && mismatch_at(path, index, route_type, error)
    }
}

/// `result` is what reading segment `index` of `path` as an `R` may give:
/// nothing outside the path; inside it, the route that `R` parses from the
/// segment's text when the segment carries `R`'s name, and otherwise (or
/// when the text does not parse) a type mismatch naming `R` and the
/// segment's type.
pub open spec fn typed_read<R: RouteSegment>(
    path: Seq<RouteView>,
    index: int,
    result: Result<Option<R>, PathError>,
) -> bool {
    if index < 0 || index >= path.len() {
        result == Ok::<Option<R>, PathError>(None)
    } else {
        match result {
            Ok(None) => false,
            Ok(Some(route)) => {
                &&& names_type::<R>(path[index].route_type)
                &&& parses_to::<R>(path[index].text, Some(route))
            },
            Err(error) => match error {
                PathError::TypeMismatch { index: at, expected, actual } => {
                    &&& at == index
                    &&& actual@ == path[index].route_type
                    &&& names_type::<R>(expected@)
                    &&& (expected@ != path[index].route_type || parses_to::<R>(
                        path[index].text,
                        None,
                    ))
                },
            },
        }
    }
}

/// The texts of `path`'s segments joined by `/`.
pub open spec fn joined_text(path: Seq<RouteView>) -> Seq<char>
    decreases path.len(),
{
    if path.len() == 0 {
        Seq::empty()
    } else if path.len() == 1 {
        path[0].text
    } else {
        joined_text(path.drop_last()) + seq!['/'] + path.last().text
    }
}

/// One erased route segment stored inside a [`NavPath`].
#[derive(Debug)]
struct Segment {
    route_type: String,
    text: String,
}

impl View for Segment {
    type V = RouteView;

    closed spec fn view(&self) -> RouteView {
        RouteView { route_type: self.route_type@, text: self.text@ }
    }
}

impl Segment {
    fn new(route_type: String, text: String) -> (segment: Self)
        ensures
            segment@ == (RouteView { route_type: route_type@, text: text@ }),
    {
        Segment { route_type, text }
    }

    fn duplicate(&self) -> (copy: Self)
        ensures
            copy@ == self@,
    {
        Segment { route_type: self.route_type.clone(), text: self.text.clone() }
    }

    /// Returns the name of the route type stored in this segment.
    fn route_type(&self) -> (name: String)
        ensures
            name@ == self@.route_type,
    {
        self.route_type.clone()
    }

    /// Returns whether this segment stores the route type `route_type` with
    /// text `text`.
    fn stores(&self, route_type: &str, text: &str) -> (same: bool)
        ensures
            same == (self@ == RouteView { route_type: route_type@, text: text@ }),
    {
        let route_type = route_type.to_string();
        let text = text.to_string();
        self.route_type == route_type && self.text == text
    }

    fn same_as(&self, other: &Segment) -> (same: bool)
        ensures
            same == (self@ == other@),
    {
        self.route_type == other.route_type && self.text == other.text
    }
}

/// An ordered sequence of independent route segments.
#[derive(Debug)]
pub struct NavPath {
    segments: Vec<Segment>,
}

impl View for NavPath {
    type V = Seq<RouteView>;

    closed spec fn view(&self) -> Seq<RouteView> {
        self.segments@.map_values(|segment: Segment| segment@)
    }
}

impl NavPath {
    /// Creates an empty path.
    pub fn new() -> (path: Self)
        ensures
            path@ == Seq::<RouteView>::empty(),
    {
        let path = NavPath { segments: Vec::new() };
        assert(path@ =~= Seq::<RouteView>::empty());
        path
    }

    /// Creates a path containing one route segment.
    pub fn root<R: RouteSegment>(route: R) -> (path: Self)
        ensures
            path@.len() == 1,
            stores_route(path@[0], route),
    {
        let path = Self::new().push(route);
        assert(path@ =~= seq![path@[0]]);
        path
    }

    /// Appends one route segment to the path.
    pub fn push<R: RouteSegment>(self, route: R) -> (path: Self)
        ensures
            path@.len() == self@.len() + 1,
            path@.drop_last() == self@,
            stores_route(path@.last(), route),
    {
        let route_type = R::route_type();
        let text = route.route_text();
        let path = self.push_segment(route_type, text);
        assert(path@.drop_last() =~= self@);
        path
    }

    /// Appends the segment of route type `route_type` with text `text`.
    pub fn push_segment(self, route_type: String, text: String) -> (path: Self)
        ensures
            path@ == self@.push(RouteView { route_type: route_type@, text: text@ }),
    {
        let ghost segment = RouteView { route_type: route_type@, text: text@ };
        let mut segments = self.segments;
        segments.push(Segment::new(route_type, text));
        let path = NavPath { segments };
        assert(path@ =~= self@.push(segment));
        path
    }

    /// Appends every segment from `other` to this path.
    pub fn join(self, other: Self) -> (path: Self)
        ensures
            path@ == self@ + other@,
    {
        let mut segments = self.segments;
        let mut rest = other.segments;
        segments.append(&mut rest);
        let path = NavPath { segments };
        assert(path@ =~= self@ + other@);
        path
    }

    /// Returns the number of route segments.
    pub fn len(&self) -> (n: usize)
        ensures
            n == self@.len(),
    {
        self.segments.len()
    }

    /// Returns `true` when the path contains no segments.
    pub fn is_empty(&self) -> (empty: bool)
        ensures
            empty == (self@.len() == 0),
    {
        self.segments.len() == 0
    }

    /// Returns the text of segment `index` when it has the route type named
    /// `route_type`.
    ///
    /// An index outside the path gives `Ok(None)`.
    pub fn read_segment(&self, index: usize, route_type: &str) -> (result: Result<
        Option<&str>,
        PathError,
    >)
        ensures
            segment_read(self@, index as int, route_type@, result),
    {
        if index >= self.segments.len() {
            return Ok(None);
        }
        let segment = &self.segments[index];
        let expected = route_type.to_string();
        if segment.route_type == expected {
            Ok(Some(segment.text.as_str()))
        } else {
            Err(PathError::TypeMismatch { index, expected, actual: segment.route_type() })
        }
    }

    /// Returns the route segment at `index` as `R`.
    ///
    /// An index outside the path gives `Ok(None)`.
    pub fn at<R: RouteSegment>(&self, index: usize) -> (result: Result<Option<R>, PathError>)
        ensures
            typed_read::<R>(self@, index as int, result),
            (result matches Ok(None)) <==> index >= self@.len(),
            result matches Err(PathError::TypeMismatch { index: at, .. }) ==> at == index,
    {
        if index >= self.segments.len() {
            return Ok(None);
        }
        let expected = R::route_type();
        let segment = &self.segments[index];
        if segment.route_type == expected {
            let text = segment.text.as_str();
            let parsed = R::parse_route(text);
            match parsed {
                Some(route) => {
                    return Ok(Some(route));
                },
                None => {},
            }
        }
        Err(PathError::TypeMismatch { index, expected, actual: segment.route_type() })
    }

    /// Returns the first route segment as `R`.
    ///
    /// An empty path gives `Ok(None)`.
    pub fn first<R: RouteSegment>(&self) -> (result: Result<Option<R>, PathError>)
        ensures
            typed_read::<R>(self@, 0, result),
    {
        self.at(0)
    }

    /// Returns the final route segment as `R`.
    ///
    /// An empty path gives `Ok(None)`.
    pub fn last<R: RouteSegment>(&self) -> (result: Result<Option<R>, PathError>)
        ensures
            self@.len() == 0 ==> result == Ok::<Option<R>, PathError>(None),
            self@.len() > 0 ==> typed_read::<R>(self@, self@.len() - 1, result),
    {
        let len = self.segments.len();
        if len == 0 {
            Ok(None)
        } else {
            self.at(len - 1)
        }
    }

    /// Returns the first segment as `R` and the remaining path.
    ///
    /// An empty path gives `Ok(None)`.
    pub fn head<R: RouteSegment>(&self) -> (result: Result<Option<(R, NavPath)>, PathError>)
        ensures
            self@.len() == 0 ==> result is Ok && result->Ok_0 is None,
            self@.len() > 0 ==> match result {
                Ok(None) => false,
                Ok(Some((route, rest))) => {
                    &&& typed_read::<R>(self@, 0, Ok(Some(route)))
                    &&& rest@ == self@.drop_first()
                },
                Err(error) => typed_read::<R>(self@, 0, Err(error)),
            },
    {
        match self.at::<R>(0) {
            Ok(Some(route)) => Ok(Some((route, self.tail()))),
            Ok(None) => Ok(None),
            Err(error) => Err(error),
        }
    }

    /// Returns a path containing all segments after the first.
    pub fn tail(&self) -> (rest: Self)
        ensures
            self@.len() == 0 ==> rest@ == Seq::<RouteView>::empty(),
            self@.len() > 0 ==> rest@ == self@.drop_first(),
    {
        let len = self.segments.len();
        let mut segments: Vec<Segment> = Vec::new();
        if len <= 1 {
            let rest = NavPath { segments };
            if len == 1 {
                assert(rest@ =~= self@.drop_first());
            } else {
                assert(rest@ =~= Seq::<RouteView>::empty());
            }
            return rest;
        }
        let mut i: usize = 1;
        while i < len
            invariant
                1 <= i <= len,
                len == self.segments@.len(),
                segments@.len() == i - 1,
                forall|k: int|
                    0 <= k < i - 1 ==> #[trigger] segments@[k]@ == self.segments@[k + 1]@,
            decreases len - i,
        {
            segments.push(self.segments[i].duplicate());
            i = i + 1;
        }
        let rest = NavPath { segments };
        assert(rest@ =~= self@.drop_first());
        rest
    }

    /// Returns the first `n` segments of this path.
    fn prefix(&self, n: usize) -> (front: Self)
        requires
            n <= self@.len(),
        ensures
            front@ == self@.take(n as int),
    {
        let mut segments: Vec<Segment> = Vec::new();
        let mut i: usize = 0;
        while i < n
            invariant
                i <= n <= self.segments@.len(),
                segments@.len() == i,
                forall|k: int| 0 <= k < i ==> #[trigger] segments@[k]@ == self.segments@[k]@,
            decreases n - i,
        {
            segments.push(self.segments[i].duplicate());
            i = i + 1;
        }
        let front = NavPath { segments };
        assert(front@ =~= self@.take(n as int));
        front
    }

    /// Returns the structural parent of this path.
    ///
    /// `A / B / C` becomes `A / B`. `None` is returned when the path is
    /// already at its root (it has at most one segment).
    pub fn parent(&self) -> (parent: Option<Self>)
        ensures
            parent is Some <==> self@.len() > 1,
            parent matches Some(p) ==> p@ == self@.drop_last(),
    {
        let len = self.segments.len();
        if len <= 1 {
            return None;
        }
        let front = self.prefix(len - 1);
        assert(self@.take(len - 1) =~= self@.drop_last());
        Some(front)
    }

    /// Returns a path containing only the first segment.
    pub fn root_path(&self) -> (root: Option<Self>)
        ensures
            root is Some <==> self@.len() > 0,
            root matches Some(r) ==> r@ == seq![self@[0]],
    {
        if self.segments.len() == 0 {
            return None;
        }
        let front = self.prefix(1);
        assert(self@.take(1) =~= seq![self@[0]]);
        Some(front)
    }

    /// Returns whether the final segment has route type `route_type` and
    /// text `text`.
    pub fn last_is_segment(&self, route_type: &str, text: &str) -> (is_last: bool)
        ensures
            is_last == (self@.len() > 0 && self@.last() == RouteView {
                route_type: route_type@,
                text: text@,
            }),
    {
        let len = self.segments.len();
        if len == 0 {
            return false;
        }
        self.segments[len - 1].stores(route_type, text)
    }

    /// Returns whether some segment has route type `route_type` and text
    /// `text`.
    pub fn contains_segment(&self, route_type: &str, text: &str) -> (found: bool)
        ensures
            found == self@.contains(RouteView { route_type: route_type@, text: text@ }),
    {
        let ghost wanted = RouteView { route_type: route_type@, text: text@ };
        let len = self.segments.len();
        let mut i: usize = 0;
        while i < len
            invariant
                i <= len,
                len == self.segments@.len(),
                wanted == (RouteView { route_type: route_type@, text: text@ }),
                forall|k: int| 0 <= k < i ==> self@[k] != wanted,
            decreases len - i,
        {
            if self.segments[i].stores(route_type, text) {
                assert(self@[i as int] == wanted);
                return true;
            }
            i = i + 1;
        }
        false
    }

    /// Returns whether `route` equals the final segment.
    pub fn last_is<R: RouteSegment>(&self, route: &R) -> (is_last: bool)
        ensures
            exists|segment: RouteView|
                #[trigger] stores_route(segment, *route) && is_last == (self@.len() > 0
                    && self@.last() == segment),
    {
        let route_type = R::route_type();
        let text = route.route_text();
        let is_last = self.last_is_segment(route_type.as_str(), text.as_str());
        assert(stores_route(RouteView { route_type: route_type@, text: text@ }, *route));
        is_last
    }

    /// Returns whether `route` occurs anywhere in this path.
    pub fn contains<R: RouteSegment>(&self, route: &R) -> (found: bool)
        ensures
            exists|segment: RouteView|
                #[trigger] stores_route(segment, *route) && found == self@.contains(segment),
    {
        let route_type = R::route_type();
        let text = route.route_text();
        let found = self.contains_segment(route_type.as_str(), text.as_str());
        assert(stores_route(RouteView { route_type: route_type@, text: text@ }, *route));
        found
    }

    /// Returns whether this path has the same segments as `other`.
    pub fn same_as(&self, other: &NavPath) -> (same: bool)
        ensures
            same == (self@ == other@),
    {
        let len = self.segments.len();
        if len != other.segments.len() {
            assert(self@.len() != other@.len());
            return false;
        }
        let mut i: usize = 0;
        while i < len
            invariant
                i <= len,
                len == self.segments@.len(),
                len == other.segments@.len(),
                forall|k: int| 0 <= k < i ==> self@[k] == other@[k],
            decreases len - i,
        {
            if !self.segments[i].same_as(&other.segments[i]) {
                assert(self@[i as int] != other@[i as int]);
                return false;
            }
            i = i + 1;
        }
        assert(self@ =~= other@);
        true
    }

    /// Returns a copy of this path.
    pub fn duplicate(&self) -> (copy: Self)
        ensures
            copy@ == self@,
    {
        let copy = self.prefix(self.segments.len());
        assert(self@.take(self@.len() as int) =~= self@);
        copy
    }

    /// Returns the segments' texts joined by `/`, the way the path is
    /// displayed.
    pub fn to_string(&self) -> (text: String)
        ensures
            text@ == joined_text(self@),
    {
        let len = self.segments.len();
        let mut text = String::new();
        if len == 0 {
            return text;
        }
        text.append(self.segments[0].text.as_str());
        assert(self@.take(1).drop_last() =~= Seq::<RouteView>::empty());
        let mut i: usize = 1;
        while i < len
            invariant
                1 <= i <= len,
                len == self.segments@.len(),
                text@ == joined_text(self@.take(i as int)),
            decreases len - i,
        {
            proof {
                reveal_strlit("/");
            }
            text.append("/");
            text.append(self.segments[i].text.as_str());
            assert(self@.take(i + 1).drop_last() =~= self@.take(i as int));
            i = i + 1;
        }
        assert(self@.take(len as int) =~= self@);
        text
    }
}

/// Reading back the segment that was just appended, as its own route type,
/// gives its text.
pub proof fn lemma_read_pushed(
    path: Seq<RouteView>,
    segment: RouteView,
    result: Result<Option<&str>, PathError>,
)
    requires
        segment_read(path.push(segment), path.len() as int, segment.route_type, result),
    ensures
        result matches Ok(Some(text)) && text@ == segment.text,
{
    assert(path.push(segment)[path.len() as int] == segment);
}

/// Reading back, as its own type, a route that was just appended gives the
/// route itself, for a route type that behaves as one must.
pub proof fn lemma_typed_read_pushed<R: RouteSegment>(
    path: Seq<RouteView>,
    segment: RouteView,
    route: R,
    result: Result<Option<R>, PathError>,
)
    requires
        well_behaved::<R>(),
        stores_route(segment, route),
        typed_read::<R>(path.push(segment), path.len() as int, result),
    ensures
        result == Ok::<Option<R>, PathError>(Some(route)),
{
    let pushed = path.push(segment);
    assert(pushed[path.len() as int] == segment);
    let (name, text) = choose|name: String, text: String|
        call_ensures(R::route_type, (), name) && call_ensures(R::route_text, (&route,), text)
            && segment == (RouteView { route_type: name@, text: text@ });
    match result {
        Ok(Some(found)) => {
            let source = choose|source: &str|
                source@ == segment.text && call_ensures(R::parse_route, (source,), Some(found));
            assert(call_ensures(R::route_text, (&route,), text));
        },
        Ok(None) => {},
        Err(error) => {
            match error {
                PathError::TypeMismatch { index, expected, actual } => {
                    let given = choose|given: String|
                        call_ensures(R::route_type, (), given) && given@ == expected@;
                    assert(call_ensures(R::route_type, (), name));
                    if expected@ == segment.route_type {
                        let source = choose|source: &str|
                            source@ == segment.text && call_ensures(
                                R::parse_route,
                                (source,),
                                None,
                            );
                        assert(call_ensures(R::route_text, (&route,), text));
                    }
                },
            }
        },
    }
}

/// Reading any segment inside the path as its own route type gives that
/// segment's text, wherever the segment stands.
pub proof fn lemma_segment_read_in_range(
    path: Seq<RouteView>,
    index: int,
    result: Result<Option<&str>, PathError>,
)
    requires
        0 <= index < path.len(),
        segment_read(path, index, path[index].route_type, result),
    ensures
        result matches Ok(Some(text)) && text@ == path[index].text,
{
}

/// A read inside the path never reports "nothing": every index inside the
/// path gives either a route or a type mismatch at that index.
pub proof fn lemma_typed_read_in_range<R: RouteSegment>(
    path: Seq<RouteView>,
    index: int,
    result: Result<Option<R>, PathError>,
)
    requires
        0 <= index < path.len(),
        typed_read::<R>(path, index, result),
    ensures
        !(result matches Ok(None)),
        result matches Err(PathError::TypeMismatch { index: at, actual, .. }) ==> at == index
            && actual@ == path[index].route_type,
{
}

/// Reading any segment of a path as the route type it was stored from gives
/// back the stored route, for a route type that behaves as one must.
pub proof fn lemma_typed_read_stored<R: RouteSegment>(
    path: Seq<RouteView>,
    index: int,
    route: R,
    result: Result<Option<R>, PathError>,
)
    requires
        well_behaved::<R>(),
        0 <= index < path.len(),
        stores_route(path[index], route),
        typed_read::<R>(path, index, result),
    ensures
        result == Ok::<Option<R>, PathError>(Some(route)),
{
    let segment = path[index];
    let (name, text) = choose|name: String, text: String|
        call_ensures(R::route_type, (), name) && call_ensures(R::route_text, (&route,), text)
            && segment == (RouteView { route_type: name@, text: text@ });
    match result {
        Ok(Some(found)) => {
            let source = choose|source: &str|
                source@ == segment.text && call_ensures(R::parse_route, (source,), Some(found));
            assert(call_ensures(R::route_text, (&route,), text));
        },
        Ok(None) => {},
        Err(error) => {
            match error {
                PathError::TypeMismatch { index: at, expected, actual } => {
                    let given = choose|given: String|
                        call_ensures(R::route_type, (), given) && given@ == expected@;
                    assert(call_ensures(R::route_type, (), name));
                    if expected@ == segment.route_type {
                        let source = choose|source: &str|
                            source@ == segment.text && call_ensures(
                                R::parse_route,
                                (source,),
                                None,
                            );
                        assert(call_ensures(R::route_text, (&route,), text));
                    }
                },
            }
        },
    }
}

/// Appending a segment leaves every typed read of the earlier segments as
/// it was.
pub proof fn lemma_push_keeps_typed_reads<R: RouteSegment>(
    path: Seq<RouteView>,
    segment: RouteView,
    index: int,
    result: Result<Option<R>, PathError>,
)
    requires
        0 <= index < path.len(),
    ensures
        typed_read::<R>(path.push(segment), index, result) <==> typed_read::<R>(
            path,
            index,
            result,
        ),
{
    assert(path.push(segment)[index] == path[index]);
}

/// After appending a route, asking whether the path ends with that route,
/// or contains it, finds it, for a route type that behaves as one must:
/// whatever segment the question computes for the route is the appended one.
pub proof fn lemma_pushed_route_found<R: RouteSegment>(
    path: Seq<RouteView>,
    appended: RouteView,
    route: R,
    asked: RouteView,
)
    requires
        well_behaved::<R>(),
        stores_route(appended, route),
        stores_route(asked, route),
    ensures
        path.push(appended).len() > 0,
        path.push(appended).last() == asked,
        path.push(appended).contains(asked),
{
    lemma_one_segment_per_route(route, appended, asked);
    assert(path.push(appended)[path.len() as int] == asked);
}

/// Appending a segment leaves every read of the earlier segments as it was.
pub proof fn lemma_push_keeps_reads(
    path: Seq<RouteView>,
    segment: RouteView,
    index: int,
    route_type: Seq<char>,
    result: Result<Option<&str>, PathError>,
)
    requires
        0 <= index < path.len(),
    ensures
        segment_read(path.push(segment), index, route_type, result) <==> segment_read(
            path,
            index,
            route_type,
            result,
        ),
{
    assert(path.push(segment)[index] == path[index]);
}

/// A segment read as another route type is reported as a type mismatch at
/// its index.
pub proof fn lemma_other_type_is_mismatch(
    path: Seq<RouteView>,
    index: int,
    route_type: Seq<char>,
    result: Result<Option<&str>, PathError>,
)
    requires
        0 <= index < path.len(),
        path[index].route_type != route_type,
        segment_read(path, index, route_type, result),
    ensures
        result matches Err(error) && mismatch_at(path, index, route_type, error),
{
}

/// Joining two paths keeps the first path's segments, and its reads, and
/// appends the second path's segments after them.
pub proof fn lemma_join_reads(
    front: Seq<RouteView>,
    back: Seq<RouteView>,
    index: int,
    route_type: Seq<char>,
    result: Result<Option<&str>, PathError>,
)
    requires
        0 <= index < front.len() + back.len(),
    ensures
        (front + back).len() == front.len() + back.len(),
        index < front.len() ==> (front + back)[index] == front[index],
        index < front.len() ==> (segment_read(front + back, index, route_type, result)
            <==> segment_read(front, index, route_type, result)),
        index >= front.len() ==> (front + back)[index] == back[index - front.len()],
{
    let joined = front + back;
    if index < front.len() {
        assert(joined[index] == front[index]);
    } else {
        assert(joined[index] == back[index - front.len()]);
    }
}

/// The structural parent of a path extended by one segment is the path
/// itself, and the extended path ends with that segment.
pub proof fn lemma_parent_of_push(path: Seq<RouteView>, segment: RouteView)
    ensures
        path.push(segment).drop_last() == path,
        path.push(segment).last() == segment,
        path.push(segment).contains(segment),
        path.len() > 0 ==> path.push(segment)[0] == path[0],
{
    assert(path.push(segment).drop_last() =~= path);
    assert(path.push(segment)[path.len() as int] == segment);
}

/// A path splits into its first segment and its tail, and into its parent
/// and its last segment.
pub proof fn lemma_head_tail_split(path: Seq<RouteView>)
    requires
        path.len() > 0,
    ensures
        seq![path[0]] + path.drop_first() == path,
        path.drop_last().push(path.last()) == path,
{
    assert(seq![path[0]] + path.drop_first() =~= path);
    assert(path.drop_last().push(path.last()) =~= path);
}

/// Joining is associative and the empty path is its identity.
pub proof fn lemma_join_associative(a: Seq<RouteView>, b: Seq<RouteView>, c: Seq<RouteView>)
    ensures
        (a + b) + c == a + (b + c),
        a + Seq::<RouteView>::empty() == a,
        Seq::<RouteView>::empty() + a == a,
{
    assert((a + b) + c =~= a + (b + c));
    assert(a + Seq::<RouteView>::empty() =~= a);
    assert(Seq::<RouteView>::empty() + a =~= a);
}

impl Clone for NavPath {
    fn clone(&self) -> (copy: Self)
        ensures
            copy@ == self@,
    {
        self.duplicate()
    }
}

impl<R: RouteSegment> From<R> for NavPath {
    fn from(route: R) -> (path: Self)
        ensures
            path@.len() == 1,
            stores_route(path@[0], route),
    {
        Self::root(route)
    }
}

impl<R: RouteSegment> vstd::std_specs::convert::FromSpecImpl<R> for NavPath {
    /// Paths are compared by their segments, so a conversion promises the
    /// segments, not one particular value.
    open spec fn obeys_from_spec() -> bool {
        false
    }

    open spec fn from_spec(route: R) -> Self {
        choose|path: NavPath| path@.len() == 1 && stores_route(path@[0], route)
    }
}

impl Default for NavPath {
    fn default() -> (path: Self)
        ensures
            path@ == Seq::<RouteView>::empty(),
    {
        NavPath::new()
    }
}

impl PartialEq for NavPath {
    fn eq(&self, other: &Self) -> (same: bool) {
        self.same_as(other)
    }
}

impl vstd::std_specs::cmp::PartialEqSpecImpl for NavPath {
    open spec fn obeys_eq_spec() -> bool {
        true
    }

    open spec fn eq_spec(&self, other: &Self) -> bool {
        self@ == other@
    }
}

impl Eq for NavPath {

}

} // verus!
