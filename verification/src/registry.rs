use vstd::prelude::*;

use crate::config::{NavMotion, NavigatorConfig};
use crate::error::NavigatorError;
use crate::scope::{lemma_diverging_scopes_unrelated, scope_prefix, ScopePath};

verus! {

/// No scope occurs twice among `entries`.
pub open spec fn unique_scopes<S>(entries: Seq<(Seq<Seq<char>>, S)>) -> bool {
    forall|i: int, j: int|
        0 <= i < j < entries.len() ==> #[trigger] entries[i].0 != #[trigger] entries[j].0
}

/// The stack of every scope among `entries`.
pub open spec fn scope_map<S>(entries: Seq<(Seq<Seq<char>>, S)>) -> Map<Seq<Seq<char>>, S> {
    Map::new(
        |scope: Seq<Seq<char>>| exists|i: int| 0 <= i < entries.len() && entries[i].0 == scope,
        |scope: Seq<Seq<char>>|
            entries[choose|i: int| 0 <= i < entries.len() && entries[i].0 == scope].1,
    )
}

/// The scopes of `scopes` that are not `path` or one of its descendants.
pub open spec fn without_subtree<S>(scopes: Map<Seq<Seq<char>>, S>, path: Seq<Seq<char>>) -> Map<
    Seq<Seq<char>>,
    S,
> {
    scopes.restrict(scopes.dom().filter(|scope: Seq<Seq<char>>| !scope_prefix(path, scope)))
}

/// With no scope twice, every entry's stack is the one its scope maps to.
pub proof fn lemma_scope_map_entry<S>(entries: Seq<(Seq<Seq<char>>, S)>, i: int)
    requires
        unique_scopes(entries),
        0 <= i < entries.len(),
    ensures
        scope_map(entries).dom().contains(entries[i].0),
        scope_map(entries)[entries[i].0] == entries[i].1,
{
    let scope = entries[i].0;
    assert(scope_map(entries).dom().contains(scope));
    let j = choose|j: int| 0 <= j < entries.len() && entries[j].0 == scope;
    if j != i {
        if j < i {
            assert(entries[j].0 != entries[i].0);
        } else {
            assert(entries[i].0 != entries[j].0);
        }
    }
}

/// Adding an entry for a new scope maps that scope to its stack and leaves
/// every other scope as it was.
pub proof fn lemma_scope_map_push<S>(
    entries: Seq<(Seq<Seq<char>>, S)>,
    scope: Seq<Seq<char>>,
    stack: S,
)
    requires
        unique_scopes(entries),
        !scope_map(entries).dom().contains(scope),
    ensures
        unique_scopes(entries.push((scope, stack))),
        scope_map(entries.push((scope, stack))) == scope_map(entries).insert(scope, stack),
{
    let pushed = entries.push((scope, stack));
    assert forall|i: int, j: int| 0 <= i < j < pushed.len() implies #[trigger] pushed[i].0
        != #[trigger] pushed[j].0 by {
        if j == entries.len() {
            if pushed[i].0 == scope {
                assert(entries[i].0 == scope);
                assert(scope_map(entries).dom().contains(scope));
            }
        } else {
            assert(pushed[i] == entries[i]);
            assert(pushed[j] == entries[j]);
        }
    }
    let old_map = scope_map(entries);
    let new_map = scope_map(pushed);
    assert forall|k: Seq<Seq<char>>| new_map.dom().contains(k) <==> old_map.insert(
        scope,
        stack,
    ).dom().contains(k) by {
        if new_map.dom().contains(k) {
            let i = choose|i: int| 0 <= i < pushed.len() && pushed[i].0 == k;
            if i < entries.len() {
                assert(entries[i].0 == k);
            }
        }
        if old_map.dom().contains(k) {
            let i = choose|i: int| 0 <= i < entries.len() && entries[i].0 == k;
            assert(pushed[i].0 == k);
        }
        if k == scope {
            assert(pushed[entries.len() as int].0 == k);
        }
    }
    assert forall|k: Seq<Seq<char>>| #[trigger] new_map.dom().contains(k) implies new_map[k]
        == old_map.insert(scope, stack)[k] by {
        let i = choose|i: int| 0 <= i < pushed.len() && pushed[i].0 == k;
        lemma_scope_map_entry(pushed, i);
        if i < entries.len() {
            assert(pushed[i] == entries[i]);
            lemma_scope_map_entry(entries, i);
        }
    }
    assert(new_map =~= old_map.insert(scope, stack));
}

/// Releasing a scope releases exactly the scope and its descendants: every
/// other scope keeps its stack, and in particular the root scope survives
/// the release of any other scope.
pub proof fn lemma_release_only_subtree<S>(
    scopes: Map<Seq<Seq<char>>, S>,
    path: Seq<Seq<char>>,
    scope: Seq<Seq<char>>,
)
    ensures
        scope_prefix(path, scope) ==> !without_subtree(scopes, path).dom().contains(scope),
        !scope_prefix(path, scope) ==> (without_subtree(scopes, path).dom().contains(scope)
            <==> scopes.dom().contains(scope)),
        !scope_prefix(path, scope) && scopes.dom().contains(scope) ==> without_subtree(
            scopes,
            path,
        )[scope] == scopes[scope],
        path.len() > 0 && scopes.dom().contains(Seq::<Seq<char>>::empty())
            ==> without_subtree(scopes, path).dom().contains(Seq::<Seq<char>>::empty()),
{
    let root = Seq::<Seq<char>>::empty();
    if path.len() > 0 {
        assert(!scope_prefix(path, root));
    }
}

/// Scopes are independent: giving one scope a stack leaves every other
/// scope's stack, and whether it has one, as it was.
pub proof fn lemma_scopes_independent<S>(
    scopes: Map<Seq<Seq<char>>, S>,
    path: Seq<Seq<char>>,
    stack: S,
    other: Seq<Seq<char>>,
)
    requires
        other != path,
    ensures
        scopes.insert(path, stack).dom().contains(other) <==> scopes.dom().contains(other),
        scopes.dom().contains(other) ==> scopes.insert(path, stack)[other] == scopes[other],
        scopes.insert(path, stack)[path] == stack,
{
}

/// The navigation stacks of every scope, and the navigation configuration.
///
/// Stacks are kept by value of type `S`; the registry never looks inside
/// them. The root scope's stack is there from the start.
///
/// The stacks are held as a vector of scope and stack pairs in which no
/// scope occurs twice, rather than a hash map keyed by scope path: a scope
/// path is a sequence of names, and for such keys the standard maps'
/// specifications give no usable lookup contract, whereas every lookup,
/// insertion and release over this vector is proved against `scopes()`.
#[derive(Debug)]
pub struct NavigationRegistry<S> {
    config: NavigatorConfig,
    stacks: Vec<(ScopePath, S)>,
}

impl<S> NavigationRegistry<S> {
    /// The registry's entries: each scope with its stack.
    pub closed spec fn entries(&self) -> Seq<(Seq<Seq<char>>, S)> {
        entries_of(self.stacks@)
    }

    /// The stack of every scope in the registry.
    pub open spec fn scopes(&self) -> Map<Seq<Seq<char>>, S> {
        scope_map(self.entries())
    }

    /// The configuration the registry was given.
    pub closed spec fn spec_config(&self) -> NavigatorConfig {
        self.config
    }

    #[verifier::type_invariant]
    spec fn inv(&self) -> bool {
        unique_scopes(self.entries())
    }

    /// A registry holding only the root scope's stack, with the default
    /// configuration.
    pub fn new(root_stack: S) -> (registry: Self)
        ensures
            registry.scopes() == Map::<Seq<Seq<char>>, S>::empty().insert(
                Seq::<Seq<char>>::empty(),
                root_stack,
            ),
            registry.spec_config().default_motion == NavMotion::Animated,
    {
        let root = ScopePath::root();
        let ghost root_view = root@;
        let mut stacks: Vec<(ScopePath, S)> = Vec::new();
        stacks.push((root, root_stack));
        let registry = NavigationRegistry { config: NavigatorConfig::new(), stacks };
        proof {
            let entries = registry.entries();
            assert(entries =~= Seq::<(Seq<Seq<char>>, S)>::empty().push((root_view, root_stack)));
            lemma_scope_map_push(Seq::<(Seq<Seq<char>>, S)>::empty(), root_view, root_stack);
            assert(scope_map(Seq::<(Seq<Seq<char>>, S)>::empty()) =~= Map::<
                Seq<Seq<char>>,
                S,
            >::empty());
        }
        registry
    }

    /// Decides whether a registry may be installed, given the one already
    /// installed, if any: only one registry may be installed.
    pub fn check_install(existing: Option<&Self>) -> (result: Result<(), NavigatorError>)
        ensures
            existing is Some ==> result matches Err(NavigatorError::AlreadyInstalled),
            existing is None ==> result is Ok,
    {
        match existing {
            Some(_) => Err(NavigatorError::AlreadyInstalled),
            None => Ok(()),
        }
    }

    /// Decides whether the installed registry, if any, may be removed: only
    /// an installed registry can be.
    pub fn check_uninstall(existing: Option<&Self>) -> (result: Result<(), NavigatorError>)
        ensures
            existing is None ==> result matches Err(NavigatorError::NotInstalled),
            existing is Some ==> result is Ok,
    {
        match existing {
            Some(_) => Ok(()),
            None => Err(NavigatorError::NotInstalled),
        }
    }

    /// Replaces the configuration.
    pub fn with_config(&mut self, config: NavigatorConfig)
        ensures
            final(self).spec_config() == config,
            final(self).scopes() == old(self).scopes(),
    {
        proof {
            use_type_invariant(&*self);
        }
        self.config = config;
    }

    /// Returns the configuration.
    pub fn config(&self) -> (config: NavigatorConfig)
        ensures
            config == self.spec_config(),
    {
        self.config
    }

    /// Returns the transition used when an operation names none.
    pub fn default_motion(&self) -> (motion: NavMotion)
        ensures
            motion == self.spec_config().default_motion,
    {
        self.config.default_motion
    }

    /// Sets the transition used when an operation names none, in the
    /// installed registry.
    pub fn set_default_motion(registry: Option<&mut Self>, motion: NavMotion) -> (result: Result<
        (),
        NavigatorError,
    >)
        ensures
            registry is None ==> result matches Err(NavigatorError::NotInstalled),
            registry is Some ==> {
                &&& result is Ok
                &&& final(registry->Some_0).spec_config() == old(
                    registry->Some_0,
                ).spec_config().with_default_motion_spec(motion)
                &&& final(registry->Some_0).scopes() == old(registry->Some_0).scopes()
            },
    {
        match registry {
            None => Err(NavigatorError::NotInstalled),
            Some(r) => {
                proof {
                    use_type_invariant(&*r);
                }
                r.config.default_motion = motion;
                Ok(())
            },
        }
    }

    /// Returns the stack of scope `path`, if the registry has one.
    pub fn get(&self, path: &ScopePath) -> (stack: Option<&S>)
        ensures
            stack is Some <==> self.scopes().dom().contains(path@),
            stack matches Some(s) ==> *s == self.scopes()[path@],
    {
        proof {
            use_type_invariant(self);
        }
        let len = self.stacks.len();
        let mut i: usize = 0;
        while i < len
            invariant
                i <= len,
                len == self.stacks@.len(),
                forall|k: int| 0 <= k < i ==> self.entries()[k].0 != path@,
            decreases len - i,
        {
            if self.stacks[i].0.same_as(path) {
                proof {
                    use_type_invariant(self);
                    lemma_scope_map_entry(self.entries(), i as int);
                }
                return Some(&self.stacks[i].1);
            }
            i = i + 1;
        }
        proof {
            if self.scopes().dom().contains(path@) {
                let k = choose|k: int|
                    0 <= k < self.entries().len() && self.entries()[k].0 == path@;
                assert(self.entries()[k].0 != path@);
            }
        }
        None
    }

    /// Returns the stack of scope `path`, or reports that the scope does not
    /// exist.
    pub fn resolve_state(&self, path: &ScopePath) -> (result: Result<&S, NavigatorError>)
        ensures
            self.scopes().dom().contains(path@) ==> (result matches Ok(stack) && *stack
                == self.scopes()[path@]),
            !self.scopes().dom().contains(path@) ==> (result matches Err(
                NavigatorError::ScopeNotFound(missing),
            ) && missing@ == path@),
    {
        match self.get(path) {
            Some(stack) => Ok(stack),
            None => Err(NavigatorError::ScopeNotFound(path.clone())),
        }
    }

    /// Adds the stack of a scope that has none yet.
    pub fn insert(&mut self, path: ScopePath, stack: S)
        requires
            !old(self).scopes().dom().contains(path@),
        ensures
            final(self).scopes() == old(self).scopes().insert(path@, stack),
            final(self).spec_config() == old(self).spec_config(),
    {
        proof {
            use_type_invariant(&*self);
            lemma_scope_map_push(self.entries(), path@, stack);
        }
        let ghost before = self.entries();
        let ghost key = path@;
        let mut stacks: Vec<(ScopePath, S)> = Vec::new();
        std::mem::swap(&mut stacks, &mut self.stacks);
        stacks.push((path, stack));
        assert(entries_of(stacks@) =~= before.push(
            (key, stack),
        ));
        self.stacks = stacks;
    }

    /// Releases scope `path` and all of its descendants. Returns whether any
    /// stack was released.
    pub fn remove_scope(&mut self, path: &ScopePath) -> (removed: bool)
        ensures
            final(self).scopes() == without_subtree(old(self).scopes(), path@),
            removed == exists|scope: Seq<Seq<char>>|
                old(self).scopes().dom().contains(scope) && #[trigger] scope_prefix(path@, scope),
            final(self).spec_config() == old(self).spec_config(),
    {
        proof {
            use_type_invariant(&*self);
        }
        let ghost initial = self.entries();
        let mut rest: Vec<(ScopePath, S)> = Vec::new();
        std::mem::swap(&mut rest, &mut self.stacks);
        let mut kept: Vec<(ScopePath, S)> = Vec::new();
        let mut removed = false;
        assert(entries_of(rest@) =~= initial);
        assert(entries_of(kept@) =~= Seq::<(Seq<Seq<char>>, S)>::empty());
        while rest.len() > 0
            invariant
                unique_scopes(initial),
                rest@.len() <= initial.len(),
                entries_of(rest@) == initial.take(rest@.len() as int),
                unique_scopes(entries_of(kept@)),
                kept_from(entries_of(kept@), initial, rest@.len() as int, path@),
                keeps_all(entries_of(kept@), initial, rest@.len() as int, path@),
                removed == exists|i: int|
                    rest@.len() <= i < initial.len() && #[trigger] scope_prefix(
                        path@,
                        initial[i].0,
                    ),
            decreases rest@.len(),
        {
            let ghost n = rest@.len() as int;
            let ghost before = entries_of(kept@);
            let entry = rest.pop().unwrap();
            proof {
                assert(initial.take(n)[n - 1] == initial[n - 1]);
                assert(entries_of(rest@) =~= initial.take(n - 1));
                assert(entry_view(entry) == initial[n - 1]);
            }
            if path.is_prefix_of(&entry.0) {
                removed = true;
                proof {
                    assert(scope_prefix(path@, initial[n - 1].0));
                    assert forall|i: int|
                        n - 1 <= i < initial.len() && !scope_prefix(
                            path@,
                            #[trigger] initial[i].0,
                        ) implies before.contains(initial[i]) by {
                    }
                }
            } else {
                kept.push(entry);
                proof {
                    lemma_keep_entry(before, initial, n, path@);
                    assert(entries_of(kept@) =~= before.push(initial[n - 1]));
                }
            }
        }
        self.stacks = kept;
        proof {
            lemma_kept_map(entries_of(self.stacks@), initial, path@);
            assert(self.entries() =~= entries_of(self.stacks@));
            let old_map = scope_map(initial);
            if removed {
                let i = choose|i: int|
                    0 <= i < initial.len() && scope_prefix(path@, initial[i].0);
                assert(old_map.dom().contains(initial[i].0));
            }
            if exists|scope: Seq<Seq<char>>|
                old_map.dom().contains(scope) && #[trigger] scope_prefix(path@, scope) {
                let scope = choose|scope: Seq<Seq<char>>|
                    old_map.dom().contains(scope) && #[trigger] scope_prefix(path@, scope);
                let i = choose|i: int| 0 <= i < initial.len() && initial[i].0 == scope;
                assert(scope_prefix(path@, initial[i].0));
            }
        }
        removed
    }
}

/// How the registry sees one entry.
pub open spec fn entry_view<S>(entry: (ScopePath, S)) -> (Seq<Seq<char>>, S) {
    (entry.0@, entry.1)
}

/// How the registry sees a sequence of entries.
pub open spec fn entries_of<S>(stacks: Seq<(ScopePath, S)>) -> Seq<(Seq<Seq<char>>, S)> {
    stacks.map_values(|entry: (ScopePath, S)| entry_view(entry))
}

/// Every kept entry is an entry of `initial` at or after `from` that is
/// not under `path`.
pub open spec fn kept_from<S>(
    kept: Seq<(Seq<Seq<char>>, S)>,
    initial: Seq<(Seq<Seq<char>>, S)>,
    from: int,
    path: Seq<Seq<char>>,
) -> bool {
    forall|j: int|
        0 <= j < kept.len() ==> {
            &&& !scope_prefix(path, #[trigger] kept[j].0)
            &&& exists|i: int| from <= i < initial.len() && initial[i] == kept[j]
        }
}

/// Every entry of `initial` at or after `from` that is not under `path` is
/// kept.
pub open spec fn keeps_all<S>(
    kept: Seq<(Seq<Seq<char>>, S)>,
    initial: Seq<(Seq<Seq<char>>, S)>,
    from: int,
    path: Seq<Seq<char>>,
) -> bool {
    forall|i: int|
        from <= i < initial.len() && !scope_prefix(path, #[trigger] initial[i].0)
            ==> kept.contains(initial[i])
}

proof fn lemma_keep_entry<S>(
    kept: Seq<(Seq<Seq<char>>, S)>,
    initial: Seq<(Seq<Seq<char>>, S)>,
    n: int,
    path: Seq<Seq<char>>,
)
    requires
        0 < n <= initial.len(),
        unique_scopes(initial),
        unique_scopes(kept),
        kept_from(kept, initial, n, path),
        keeps_all(kept, initial, n, path),
        !scope_prefix(path, initial[n - 1].0),
    ensures
        unique_scopes(kept.push(initial[n - 1])),
        kept_from(kept.push(initial[n - 1]), initial, n - 1, path),
        keeps_all(kept.push(initial[n - 1]), initial, n - 1, path),
{
    let pushed = kept.push(initial[n - 1]);
    assert forall|a: int, b: int| 0 <= a < b < pushed.len() implies #[trigger] pushed[a].0
        != #[trigger] pushed[b].0 by {
        if b == kept.len() {
            assert(pushed[a] == kept[a]);
            assert(!scope_prefix(path, kept[a].0));
            let i = choose|i: int| n <= i < initial.len() && initial[i] == kept[a];
            assert(initial[n - 1].0 != initial[i].0);
        } else {
            assert(pushed[a] == kept[a]);
            assert(pushed[b] == kept[b]);
        }
    }
    assert forall|j: int| 0 <= j < pushed.len() implies {
        &&& !scope_prefix(path, #[trigger] pushed[j].0)
        &&& exists|i: int| n - 1 <= i < initial.len() && initial[i] == pushed[j]
    } by {
        if j < kept.len() {
            assert(pushed[j] == kept[j]);
            assert(!scope_prefix(path, kept[j].0));
            let i = choose|i: int| n <= i < initial.len() && initial[i] == kept[j];
            assert(initial[i] == pushed[j]);
        } else {
            assert(initial[n - 1] == pushed[j]);
        }
    }
    assert forall|i: int|
        n - 1 <= i < initial.len() && !scope_prefix(path, #[trigger] initial[i].0)
            implies pushed.contains(initial[i]) by {
        if i == n - 1 {
            assert(pushed[kept.len() as int] == initial[i]);
        } else {
            let j = choose|j: int| 0 <= j < kept.len() && kept[j] == initial[i];
            assert(pushed[j] == initial[i]);
        }
    }
}

proof fn lemma_kept_map<S>(
    kept: Seq<(Seq<Seq<char>>, S)>,
    initial: Seq<(Seq<Seq<char>>, S)>,
    path: Seq<Seq<char>>,
)
    requires
        unique_scopes(initial),
        unique_scopes(kept),
        kept_from(kept, initial, 0, path),
        keeps_all(kept, initial, 0, path),
    ensures
        scope_map(kept) == without_subtree(scope_map(initial), path),
{
    let old_map = scope_map(initial);
    let new_map = scope_map(kept);
    let expected = without_subtree(old_map, path);
    assert forall|k: Seq<Seq<char>>| new_map.dom().contains(k) <==> expected.dom().contains(k) by {
        if new_map.dom().contains(k) {
            let j = choose|j: int| 0 <= j < kept.len() && kept[j].0 == k;
            assert(!scope_prefix(path, kept[j].0));
            let i = choose|i: int| 0 <= i < initial.len() && initial[i] == kept[j];
            assert(old_map.dom().contains(k));
        }
        if expected.dom().contains(k) {
            let i = choose|i: int| 0 <= i < initial.len() && initial[i].0 == k;
            assert(kept.contains(initial[i]));
            let j = choose|j: int| 0 <= j < kept.len() && kept[j] == initial[i];
            assert(kept[j].0 == k);
        }
    }
    assert forall|k: Seq<Seq<char>>| #[trigger] new_map.dom().contains(k) implies new_map[k]
        == expected[k] by {
        let j = choose|j: int| 0 <= j < kept.len() && kept[j].0 == k;
        lemma_scope_map_entry(kept, j);
        assert(!scope_prefix(path, kept[j].0));
        let i = choose|i: int| 0 <= i < initial.len() && initial[i] == kept[j];
        lemma_scope_map_entry(initial, i);
    }
    assert(new_map =~= expected);
}

/// Releasing a scope keeps every scope that names a different scope at some
/// level of the released one, with its stack: only the released scope and
/// the scopes below it go.
pub proof fn lemma_release_keeps_diverging<S>(
    scopes: Map<Seq<Seq<char>>, S>,
    path: Seq<Seq<char>>,
    scope: Seq<Seq<char>>,
    i: int,
)
    requires
        scopes.dom().contains(scope),
        0 <= i < path.len(),
        i < scope.len(),
        path[i] != scope[i],
    ensures
        without_subtree(scopes, path).dom().contains(scope),
        without_subtree(scopes, path)[scope] == scopes[scope],
{
    lemma_diverging_scopes_unrelated(path, scope, i);
    lemma_release_only_subtree(scopes, path, scope);
}

} // verus!
