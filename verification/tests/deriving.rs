use gpui_navigation::{check_derive_target, DeriveRefusal};

#[test]
fn derive_accepts_only_non_generic_enums() {
    assert_eq!(check_derive_target(false, true), Ok(()));
    assert_eq!(check_derive_target(false, false), Err(DeriveRefusal::NotAnEnum));
    assert_eq!(check_derive_target(true, true), Err(DeriveRefusal::GenericType));
    assert_eq!(check_derive_target(true, false), Err(DeriveRefusal::GenericType));
}
