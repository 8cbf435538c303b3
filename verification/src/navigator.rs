use vstd::prelude::*;

use crate::config::NavMotion;
use crate::error::NavigatorError;
use crate::registry::{without_subtree, NavigationRegistry};
use crate::scope::{scope_prefix, ScopeId, ScopePath};

verus! {

/// A lightweight, non-owning navigation façade: the scope it targets and
/// the transition it uses by default.
///
/// `Navigator::new()` targets the application root stack; [`Navigator::scope`]
/// targets a named nested stack. The stacks themselves live in the
/// application's [`NavigationRegistry`].
#[derive(Debug)]
pub struct Navigator {
    path: ScopePath,
    motion: Option<NavMotion>,
}

impl Navigator {
    /// The scope this navigator targets.
    pub closed spec fn scope_path(&self) -> Seq<Seq<char>> {
        self.path@
    }

    /// The transition this navigator uses, if it names one.
    pub closed spec fn motion(&self) -> Option<NavMotion> {
        self.motion
    }

    /// Creates a navigator targeting the application's root stack.
    pub fn new() -> (navigator: Self)
        ensures
            navigator.scope_path() == Seq::<Seq<char>>::empty(),
            navigator.motion() is None,
    {
        Navigator { path: ScopePath::root(), motion: None }
    }

    /// Targets the child scope `id` of this navigator's scope.
    pub fn scope(&self, id: ScopeId) -> (navigator: Self)
        ensures
            navigator.scope_path() == self.scope_path().push(id@),
            navigator.motion() == self.motion(),
    {
        Navigator { path: self.path.child(id), motion: self.motion }
    }

    /// Returns a navigator targeting the root stack.
    pub fn root(&self) -> (navigator: Self)
        ensures
            navigator.scope_path() == Seq::<Seq<char>>::empty(),
            navigator.motion() == self.motion(),
    {
        Navigator { path: ScopePath::root(), motion: self.motion }
    }

    /// Returns a navigator targeting the parent scope, or `None` at root.
    pub fn parent(&self) -> (navigator: Option<Self>)
        ensures
            navigator is Some <==> self.scope_path().len() > 0,
            navigator matches Some(n) ==> n.scope_path() == self.scope_path().drop_last()
                && n.motion() == self.motion(),
    {
        match self.path.parent() {
            Some(path) => Some(Navigator { path, motion: self.motion }),
            None => None,
        }
    }

    /// Returns this navigator's scope path.
    pub fn path(&self) -> (path: &ScopePath)
        ensures
            path@ == self.scope_path(),
    {
        &self.path
    }

    /// Creates a navigator for an existing hierarchical scope path.
    pub fn for_path(path: ScopePath) -> (navigator: Self)
        ensures
            navigator.scope_path() == path@,
            navigator.motion() is None,
    {
        Navigator { path, motion: None }
    }

    /// Returns a copy of this navigator using the supplied default
    /// transition.
    pub fn with_motion(&self, motion: NavMotion) -> (navigator: Self)
        ensures
            navigator.scope_path() == self.scope_path(),
            navigator.motion() == Some(motion),
    {
        Navigator { path: self.path.clone(), motion: Some(motion) }
    }

    /// Returns a copy of this navigator that uses an immediate transition.
    pub fn immediate(&self) -> (navigator: Self)
        ensures
            navigator.scope_path() == self.scope_path(),
            navigator.motion() == Some(NavMotion::Immediate),
    {
        self.with_motion(NavMotion::Immediate)
    }

    /// Returns a copy of this navigator that uses animated transitions.
    pub fn animated(&self) -> (navigator: Self)
        ensures
            navigator.scope_path() == self.scope_path(),
            navigator.motion() == Some(NavMotion::Animated),
    {
        self.with_motion(NavMotion::Animated)
    }

    /// The transition an operation uses: this navigator's own, or else
    /// `default`.
    pub fn motion_or(&self, default: NavMotion) -> (motion: NavMotion)
        ensures
            motion == (match self.motion() {
                Some(own) => own,
                None => default,
            }),
    {
        match self.motion {
            Some(own) => own,
            None => default,
        }
    }

    /// The transition an operation uses with the installed registry: this
    /// navigator's own, or else the registry's default.
    pub fn resolve_motion<S>(&self, registry: Option<&NavigationRegistry<S>>) -> (result: Result<
        NavMotion,
        NavigatorError,
    >)
        ensures
            registry is None ==> result matches Err(NavigatorError::NotInstalled),
            registry matches Some(r) ==> result == Ok::<NavMotion, NavigatorError>(
                match self.motion() {
                    Some(own) => own,
                    None => r.spec_config().default_motion,
                },
            ),
    {
        match registry {
            None => Err(NavigatorError::NotInstalled),
            Some(r) => Ok(self.motion_or(r.default_motion())),
        }
    }

    /// The stack of this navigator's scope in the installed registry.
    pub fn resolve_state<'a, S>(&self, registry: Option<&'a NavigationRegistry<S>>) -> (result:
        Result<&'a S, NavigatorError>)
        ensures
            registry is None ==> result matches Err(NavigatorError::NotInstalled),
            registry matches Some(r) ==> (r.scopes().dom().contains(self.scope_path()) ==> (
            result matches Ok(stack) && *stack == r.scopes()[self.scope_path()])),
            registry matches Some(r) ==> (!r.scopes().dom().contains(self.scope_path()) ==> (
            result matches Err(NavigatorError::ScopeNotFound(missing)) && missing@
                == self.scope_path())),
    {
        match registry {
            None => Err(NavigatorError::NotInstalled),
            Some(r) => r.resolve_state(&self.path),
        }
    }

    /// Looks up the stack of this navigator's scope before an operation that
    /// creates the scope when it is missing: `Ok(None)` means that a new
    /// stack must be registered for this scope.
    pub fn ensure_state<'a, S>(&self, registry: Option<&'a NavigationRegistry<S>>) -> (result:
        Result<Option<&'a S>, NavigatorError>)
        ensures
            registry is None ==> result matches Err(NavigatorError::NotInstalled),
            registry matches Some(r) ==> (r.scopes().dom().contains(self.scope_path()) ==> (
            result matches Ok(Some(stack)) && *stack == r.scopes()[self.scope_path()])),
            registry matches Some(r) ==> (!r.scopes().dom().contains(self.scope_path()) ==> (
            result matches Ok(None))),
    {
        match registry {
            None => Err(NavigatorError::NotInstalled),
            Some(r) => Ok(r.get(&self.path)),
        }
    }

    /// Releases this scope and all of its descendants. The root scope
    /// cannot be removed.
    pub fn remove_scope<S>(&self, registry: Option<&mut NavigationRegistry<S>>) -> (result: Result<
        bool,
        NavigatorError,
    >)
        ensures
            self.scope_path().len() == 0 ==> result matches Err(NavigatorError::CannotRemoveRoot),
            self.scope_path().len() == 0 && registry is Some ==> {
                &&& final(registry->Some_0).scopes() == old(registry->Some_0).scopes()
                &&& final(registry->Some_0).spec_config() == old(registry->Some_0).spec_config()
            },
            self.scope_path().len() > 0 && registry is None ==> result matches Err(
                NavigatorError::NotInstalled,
            ),
            self.scope_path().len() > 0 && registry is Some ==> (result matches Ok(removed) && {
                &&& final(registry->Some_0).scopes() == without_subtree(
                    old(registry->Some_0).scopes(),
                    self.scope_path(),
                )
                &&& removed == exists|scope: Seq<Seq<char>>|
                    old(registry->Some_0).scopes().dom().contains(scope) && #[trigger] scope_prefix(
                        self.scope_path(),
                        scope,
                    )
                &&& final(registry->Some_0).spec_config() == old(registry->Some_0).spec_config()
            }),
    {
        if self.path.is_root() {
            return Err(NavigatorError::CannotRemoveRoot);
        }
        match registry {
            None => Err(NavigatorError::NotInstalled),
            Some(r) => Ok(r.remove_scope(&self.path)),
        }
    }

    /// Returns whether a stack of `depth` entries has an entry to pop.
    pub fn can_pop_at(depth: usize) -> (can: bool)
        ensures
            can == (depth > 1),
    {
        depth > 1
    }

    /// Returns whether a stack of `depth` entries is at its root entry.
    pub fn is_at_root_at(depth: usize) -> (at_root: bool)
        ensures
            at_root == (depth <= 1),
    {
        depth <= 1
    }
}

impl Clone for Navigator {
    fn clone(&self) -> (copy: Self)
        ensures
            copy.scope_path() == self.scope_path(),
            copy.motion() == self.motion(),
    {
        Navigator { path: self.path.clone(), motion: self.motion }
    }
}

impl Default for Navigator {
    fn default() -> (navigator: Self)
        ensures
            navigator.scope_path() == Seq::<Seq<char>>::empty(),
            navigator.motion() is None,
    {
        Navigator::new()
    }
}

impl PartialEq for Navigator {
    fn eq(&self, other: &Self) -> (same: bool) {
        self.path == other.path && self.motion == other.motion
    }
}

impl vstd::std_specs::cmp::PartialEqSpecImpl for Navigator {
    open spec fn obeys_eq_spec() -> bool {
        true
    }

    open spec fn eq_spec(&self, other: &Self) -> bool {
        self.scope_path() == other.scope_path() && self.motion() == other.motion()
    }
}

impl Eq for Navigator {

}

} // verus!
