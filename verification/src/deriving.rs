use vstd::prelude::*;

verus! {

/// Why a type cannot derive `RouteSegment`.
#[derive(Debug, Clone, Copy, PartialEq, Eq, Structural)]
pub enum DeriveRefusal {
    /// The type has generic parameters.
    GenericType,
    /// The type is not an enum.
    NotAnEnum,
}

/// Decides whether `RouteSegment` can be derived for a type: generic types
/// are refused first, then every type that is not an enum.
pub fn check_derive_target(has_generics: bool, is_enum: bool) -> (result: Result<(), DeriveRefusal>)
    ensures
        has_generics ==> result == Err::<(), DeriveRefusal>(DeriveRefusal::GenericType),
        !has_generics && !is_enum ==> result == Err::<(), DeriveRefusal>(DeriveRefusal::NotAnEnum),
        !has_generics && is_enum ==> result is Ok,
{
    if has_generics {
        Err(DeriveRefusal::GenericType)
    } else if !is_enum {
        Err(DeriveRefusal::NotAnEnum)
    } else {
        Ok(())
    }
}

} // verus!
