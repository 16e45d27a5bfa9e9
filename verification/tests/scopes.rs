use dinit_dash::dinit::{DinitManager, ServiceScope};

#[test]
fn test_service_scope_equality() {
    assert_eq!(ServiceScope::System, ServiceScope::System);
    assert_eq!(ServiceScope::User, ServiceScope::User);
    assert_ne!(ServiceScope::System, ServiceScope::User);
}

#[test]
fn test_service_scope_copy() {
    let scope1 = ServiceScope::System;
    let scope2 = scope1;
    assert_eq!(scope1, scope2);
}

#[test]
fn test_dinit_manager_new() {
    // Construction never fails: there is no connection to establish.
    let _ = DinitManager::new(ServiceScope::System);
    assert!(DinitManager::new(ServiceScope::System).is_ok());
}

#[test]
fn scopes_have_their_options() {
    assert_eq!(ServiceScope::System.dinitctl_flag(), "-s");
    assert_eq!(ServiceScope::User.dinitctl_flag(), "-u");
}

#[test]
fn only_the_system_scope_takes_more_rights() {
    assert!(ServiceScope::System.requires_elevation(false));
    assert!(!ServiceScope::System.requires_elevation(true));
    assert!(!ServiceScope::User.requires_elevation(false));
    assert!(!ServiceScope::User.requires_elevation(true));
}
