use vstd::prelude::*;

verus! {

/// The name of one navigation scope.
#[derive(Debug, Hash)]
pub struct ScopeId(String);

impl View for ScopeId {
    type V = Seq<char>;

    closed spec fn view(&self) -> Seq<char> {
        self.0@
    }
}

impl ScopeId {
    /// Creates a scope name.
    pub fn new(id: &str) -> (scope: Self)
        ensures
            scope@ == id@,
    {
        ScopeId(id.to_string())
    }

    /// Returns the scope name as text.
    pub fn as_str(&self) -> (text: &str)
        ensures
            text@ == self@,
    {
        self.0.as_str()
    }

    /// How the scope name is displayed: the name itself.
    pub fn to_string(&self) -> (text: String)
        ensures
            text@ == self@,
    {
        self.0.clone()
    }
}

impl Clone for ScopeId {
    fn clone(&self) -> (copy: Self)
        ensures
            copy@ == self@,
    {
        ScopeId(self.0.clone())
    }
}

impl PartialEq for ScopeId {
    fn eq(&self, other: &Self) -> (same: bool) {
        self.0 == other.0
    }
}

impl vstd::std_specs::cmp::PartialEqSpecImpl for ScopeId {
    open spec fn obeys_eq_spec() -> bool {
        true
    }

    open spec fn eq_spec(&self, other: &Self) -> bool {
        self@ == other@
    }
}

impl Eq for ScopeId {

}

impl From<&str> for ScopeId {
    fn from(id: &str) -> (scope: Self)
        ensures
            scope@ == id@,
    {
        ScopeId::new(id)
    }
}

impl vstd::std_specs::convert::FromSpecImpl<&str> for ScopeId {
    /// Scope names are compared by their text, so a conversion promises the
    /// name, not one particular value.
    open spec fn obeys_from_spec() -> bool {
        false
    }

    open spec fn from_spec(id: &str) -> Self {
        choose|scope: ScopeId| scope@ == id@
    }
}

impl From<String> for ScopeId {
    fn from(id: String) -> (scope: Self)
        ensures
            scope@ == id@,
    {
        ScopeId(id)
    }
}

impl vstd::std_specs::convert::FromSpecImpl<String> for ScopeId {
    /// Scope names are compared by their text, so a conversion promises the
    /// name, not one particular value.
    open spec fn obeys_from_spec() -> bool {
        false
    }

    open spec fn from_spec(id: String) -> Self {
        choose|scope: ScopeId| scope@ == id@
    }
}

impl From<std::sync::Arc<str>> for ScopeId {
    fn from(id: std::sync::Arc<str>) -> (scope: Self)
        ensures
            scope@ == id@,
    {
        let text: &str = &*id;
        ScopeId::new(text)
    }
}

impl vstd::std_specs::convert::FromSpecImpl<std::sync::Arc<str>> for ScopeId {
    /// Scope names are compared by their text, so a conversion promises the
    /// name, not one particular value.
    open spec fn obeys_from_spec() -> bool {
        false
    }

    open spec fn from_spec(id: std::sync::Arc<str>) -> Self {
        choose|scope: ScopeId| scope@ == id@
    }
}

/// `front` is a prefix of `path`: `path` starts with `front`'s scopes.
pub open spec fn scope_prefix(front: Seq<Seq<char>>, path: Seq<Seq<char>>) -> bool {
    &&& front.len() <= path.len()
    &&& forall|i: int| 0 <= i < front.len() ==> #[trigger] front[i] == path[i]
}

/// The scopes of `path`, each preceded by `/`.
pub open spec fn slash_joined(path: Seq<Seq<char>>) -> Seq<char>
    decreases path.len(),
{
    if path.len() == 0 {
        Seq::empty()
    } else {
        slash_joined(path.drop_last()) + seq!['/'] + path.last()
    }
}

/// How a scope path is displayed: `/` for the root, otherwise every scope
/// preceded by `/`.
pub open spec fn scope_text(path: Seq<Seq<char>>) -> Seq<char> {
    if path.len() == 0 {
        seq!['/']
    } else {
        slash_joined(path)
    }
}

/// A hierarchical navigation scope: the root scope, or a sequence of named
/// child scopes below it.
#[derive(Debug, Hash)]
pub struct ScopePath(Vec<ScopeId>);

impl View for ScopePath {
    type V = Seq<Seq<char>>;

    closed spec fn view(&self) -> Seq<Seq<char>> {
        self.0@.map_values(|id: ScopeId| id@)
    }
}

impl ScopePath {
    /// The root scope.
    pub fn root() -> (path: Self)
        ensures
            path@ == Seq::<Seq<char>>::empty(),
    {
        let path = ScopePath(Vec::new());
        assert(path@ =~= Seq::<Seq<char>>::empty());
        path
    }

    fn copy_ids(&self, n: usize) -> (ids: Vec<ScopeId>)
        requires
            n <= self@.len(),
        ensures
            ids@.map_values(|id: ScopeId| id@) == self@.take(n as int),
    {
        let mut ids: Vec<ScopeId> = Vec::new();
        let mut i: usize = 0;
        while i < n
            invariant
                i <= n <= self.0@.len(),
                ids@.len() == i,
                forall|k: int| 0 <= k < i ==> #[trigger] ids@[k]@ == self.0@[k]@,
            decreases n - i,
        {
            ids.push(self.0[i].clone());
            i = i + 1;
        }
        assert(ids@.map_values(|id: ScopeId| id@) =~= self@.take(n as int));
        ids
    }

    /// The child scope `id` of this scope.
    pub fn child(&self, id: ScopeId) -> (path: Self)
        ensures
            path@ == self@.push(id@),
    {
        let mut ids = self.copy_ids(self.0.len());
        assert(self@.take(self@.len() as int) =~= self@);
        ids.push(id);
        let path = ScopePath(ids);
        assert(path@ =~= self@.push(id@));
        path
    }

    /// The parent scope, or `None` at the root.
    pub fn parent(&self) -> (parent: Option<Self>)
        ensures
            parent is Some <==> self@.len() > 0,
            parent matches Some(p) ==> p@ == self@.drop_last(),
    {
        let len = self.0.len();
        if len == 0 {
            return None;
        }
        let ids = self.copy_ids(len - 1);
        assert(self@.take(len - 1) =~= self@.drop_last());
        Some(ScopePath(ids))
    }

    /// Returns whether this is the root scope.
    pub fn is_root(&self) -> (root: bool)
        ensures
            root == (self@.len() == 0),
    {
        self.0.len() == 0
    }

    /// The number of scopes below the root.
    pub fn depth(&self) -> (depth: usize)
        ensures
            depth == self@.len(),
    {
        self.0.len()
    }

    /// The scope names, outermost first.
    pub fn segments(&self) -> (ids: &[ScopeId])
        ensures
            ids@.map_values(|id: ScopeId| id@) == self@,
    {
        self.0.as_slice()
    }

    /// Returns whether `other` is this scope or one of its descendants.
    pub fn is_prefix_of(&self, other: &Self) -> (prefix: bool)
        ensures
            prefix == scope_prefix(self@, other@),
            prefix == (self@.len() <= other@.len() && other@.take(self@.len() as int) == self@),
    {
        let len = self.0.len();
        if len > other.0.len() {
            return false;
        }
        let mut i: usize = 0;
        while i < len
            invariant
                i <= len <= other.0@.len(),
                len == self.0@.len(),
                forall|k: int| 0 <= k < i ==> self@[k] == other@[k],
            decreases len - i,
        {
            if self.0[i] != other.0[i] {
                assert(self@[i as int] != other@[i as int]);
                assert(other@.take(len as int)[i as int] == other@[i as int]);
                return false;
            }
            i = i + 1;
        }
        assert(other@.take(len as int) =~= self@);
        true
    }

    /// Returns whether this path has the same scopes as `other`.
    pub fn same_as(&self, other: &Self) -> (same: bool)
        ensures
            same == (self@ == other@),
    {
        let prefix = self.is_prefix_of(other);
        if prefix && self.0.len() == other.0.len() {
            assert(self@ =~= other@);
            true
        } else {
            false
        }
    }

    /// How this path is displayed: `/` for the root, otherwise
    /// `/workspace/settings`.
    pub fn to_string(&self) -> (text: String)
        ensures
            text@ == scope_text(self@),
    {
        proof {
            reveal_strlit("/");
        }
        let len = self.0.len();
        let mut text = String::new();
        if len == 0 {
            text.append("/");
            return text;
        }
        let mut i: usize = 0;
        assert(self@.take(0) =~= Seq::<Seq<char>>::empty());
        while i < len
            invariant
                i <= len,
                len == self.0@.len(),
                text@ == slash_joined(self@.take(i as int)),
            decreases len - i,
        {
            proof {
                reveal_strlit("/");
            }
            text.append("/");
            text.append(self.0[i].as_str());
            assert(self@.take(i + 1).drop_last() =~= self@.take(i as int));
            i = i + 1;
        }
        assert(self@.take(len as int) =~= self@);
        text
    }
}

impl Clone for ScopePath {
    fn clone(&self) -> (copy: Self)
        ensures
            copy@ == self@,
    {
        let ids = self.copy_ids(self.0.len());
        assert(self@.take(self@.len() as int) =~= self@);
        ScopePath(ids)
    }
}

impl Default for ScopePath {
    fn default() -> (path: Self)
        ensures
            path@ == Seq::<Seq<char>>::empty(),
    {
        ScopePath::root()
    }
}

impl PartialEq for ScopePath {
    fn eq(&self, other: &Self) -> (same: bool) {
        self.same_as(other)
    }
}

impl vstd::std_specs::cmp::PartialEqSpecImpl for ScopePath {
    open spec fn obeys_eq_spec() -> bool {
        true
    }

    open spec fn eq_spec(&self, other: &Self) -> bool {
        self@ == other@
    }
}

impl Eq for ScopePath {

}

/// The parent of a child scope is the scope itself, the child is one level
/// deeper, and the scope is a prefix of the child.
pub proof fn lemma_child_parent(path: Seq<Seq<char>>, id: Seq<char>)
    ensures
        path.push(id).drop_last() == path,
        path.push(id).len() == path.len() + 1,
        scope_prefix(path, path.push(id)),
        !scope_prefix(path.push(id), path),
{
    assert(path.push(id).drop_last() =~= path);
    assert forall|i: int| 0 <= i < path.len() implies #[trigger] path[i] == path.push(id)[i] by {
    }
}

/// Being a prefix is reflexive and transitive, the root is a prefix of every
/// scope, and a prefix as deep as the scope is the scope itself.
pub proof fn lemma_prefix_order(a: Seq<Seq<char>>, b: Seq<Seq<char>>, c: Seq<Seq<char>>)
    ensures
        scope_prefix(a, a),
        scope_prefix(Seq::<Seq<char>>::empty(), a),
        scope_prefix(a, b) && scope_prefix(b, c) ==> scope_prefix(a, c),
        scope_prefix(a, b) && a.len() == b.len() ==> a == b,
{
    if scope_prefix(a, b) && scope_prefix(b, c) {
        assert forall|i: int| 0 <= i < a.len() implies #[trigger] a[i] == c[i] by {
            assert(a[i] == b[i]);
        }
    }
    if scope_prefix(a, b) && a.len() == b.len() {
        assert(a =~= b);
    }
}

/// A scope's parent is a prefix of the scope.
pub proof fn lemma_parent_is_prefix(path: Seq<Seq<char>>)
    requires
        path.len() > 0,
    ensures
        scope_prefix(path.drop_last(), path),
{
    assert forall|i: int| 0 <= i < path.drop_last().len() implies #[trigger] path.drop_last()[i]
        == path[i] by {
    }
}

/// A scope is a prefix of another exactly when the other starts with every
/// one of its names, in order: the first names of the other, as many as the
/// scope has, are the scope itself.
pub proof fn lemma_scope_prefix_is_take(front: Seq<Seq<char>>, path: Seq<Seq<char>>)
    ensures
        scope_prefix(front, path) <==> (front.len() <= path.len() && path.take(
            front.len() as int,
        ) == front),
{
    if scope_prefix(front, path) {
        assert(path.take(front.len() as int) =~= front);
    }
    if front.len() <= path.len() && path.take(front.len() as int) == front {
        assert forall|i: int| 0 <= i < front.len() implies #[trigger] front[i] == path[i] by {
            assert(path.take(front.len() as int)[i] == path[i]);
        }
    }
}

/// Two scopes that name a different scope at some level are never prefixes
/// of one another, whatever their depths.
pub proof fn lemma_diverging_scopes_unrelated(a: Seq<Seq<char>>, b: Seq<Seq<char>>, i: int)
    requires
        0 <= i < a.len(),
        i < b.len(),
        a[i] != b[i],
    ensures
        !scope_prefix(a, b),
        !scope_prefix(b, a),
{
}

} // verus!
