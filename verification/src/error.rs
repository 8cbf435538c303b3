use vstd::prelude::*;

use crate::scope::ScopePath;

verus! {

/// Errors returned by the scoped navigation façade.
#[derive(Debug)]
pub enum NavigatorError {
    /// The global navigation registry has not been installed.
    NotInstalled,
    /// The global navigation registry is already installed.
    AlreadyInstalled,
    /// A requested scope does not exist.
    ScopeNotFound(ScopePath),
    /// The root scope is protected from removal.
    CannotRemoveRoot,
}

/// The result of a scoped navigation operation.
pub type NavigationResult<T> = Result<T, NavigatorError>;

} // verus!
