use vstd::prelude::*;

verus! {

/// How a navigation stack moves to its new top entry.
#[derive(Clone, Copy, Debug, PartialEq, Eq, Structural)]
pub enum NavMotion {
    /// The new entry appears at once.
    Immediate,
    /// The new entry appears with a transition.
    Animated,
}

/// Configuration for the application-wide navigation registry.
#[derive(Clone, Copy, Debug, PartialEq, Eq, Structural)]
pub struct NavigatorConfig {
    /// Transition used by operations that do not specify a per-call motion.
    pub default_motion: NavMotion,
}

impl NavigatorConfig {
    /// Creates the default navigator configuration: animated transitions.
    pub fn new() -> (config: Self)
        ensures
            config.default_motion == NavMotion::Animated,
    {
        NavigatorConfig { default_motion: NavMotion::Animated }
    }

    /// Returns a copy using `motion` as the default transition.
    pub fn with_default_motion(self, motion: NavMotion) -> (config: Self)
        ensures
            config == self.with_default_motion_spec(motion),
    {
        NavigatorConfig { default_motion: motion }
    }
}

impl NavigatorConfig {
    /// The configuration with `motion` as the default transition.
    pub open spec fn with_default_motion_spec(self, motion: NavMotion) -> Self {
        NavigatorConfig { default_motion: motion, ..self }
    }
}

impl Default for NavigatorConfig {
    fn default() -> (config: Self)
        ensures
            config.default_motion == NavMotion::Animated,
    {
        Self::new()
    }
}

} // verus!
