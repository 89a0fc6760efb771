use searchcore::auth::{AddUserReq, AuthService, User};
use searchcore::authz::{AccessControlService, RBACModel, Role, Roles};
use searchcore::error::Error;
use searchcore::permissions::Permissions;
use searchcore::permissions_storage::PermissionsStorage;
use searchcore::privileges::{
    flags_from_names, flags_iter, get_flag_by_name, AllFlags, Flags, IndexPrivileges,
    SystemPrivileges,
};
use std::sync::Arc;

#[test]
fn system_privileges_algebra() {
    let all = SystemPrivileges::all();
    let sec = SystemPrivileges::manage_security();
    let idx = SystemPrivileges::manage_indices();
    assert_eq!(all.bits(), 3);
    assert_eq!(sec.bits(), 1);
    assert_eq!(idx.bits(), 2);
    assert!(all.contains(sec));
    assert!(all.contains(idx));
    assert!(!sec.contains(idx));
    assert_eq!(sec.union(idx).bits(), 3);
    assert_eq!(SystemPrivileges::none().bits(), 0);
    assert_eq!(SystemPrivileges::from_bits(0xff).bits(), 3);
}

#[test]
fn index_privileges_algebra() {
    let read = IndexPrivileges::read();
    let write = IndexPrivileges::write();
    assert!(IndexPrivileges::all().contains(read));
    assert!(!read.contains(write));
    assert_eq!(read.union(write).bits(), 3);
    assert!(read.contains(IndexPrivileges::none()));
}

#[test]
fn flags_listing_and_lookup() {
    let listed = flags_iter(SystemPrivileges::all());
    let names: Vec<&str> = listed.iter().map(|p| p.1.as_str()).collect();
    assert_eq!(names, vec!["manage_security", "manage_indices"]);

    let only_sec = flags_iter(SystemPrivileges::manage_security());
    assert_eq!(only_sec.len(), 1);
    assert_eq!(only_sec[0].1, "manage_security");
    assert_eq!(only_sec[0].0.bits(), 1);

    let f: Option<SystemPrivileges> = get_flag_by_name("manage_indices");
    assert_eq!(f.unwrap().bits(), 2);
    let missing: Option<IndexPrivileges> = get_flag_by_name("manage_indices");
    assert!(missing.is_none());
    let r: Option<IndexPrivileges> = get_flag_by_name("read");
    assert_eq!(r.unwrap().bits(), 1);
}

#[test]
fn folding_names_into_flags_reports_unknown_names() {
    let both: SystemPrivileges =
        flags_from_names(&vec!["manage_security".to_string(), "manage_indices".to_string()])
            .unwrap();
    assert_eq!(both.bits(), 3);
    let none: IndexPrivileges = flags_from_names(&vec![]).unwrap();
    assert_eq!(none.bits(), 0);
    let bad: Result<IndexPrivileges, String> =
        flags_from_names(&vec!["read".to_string(), "launch".to_string()]);
    assert_eq!(bad.unwrap_err(), "launch");
}

#[test]
fn permissions_merge_unions_grants() {
    let mut a = Permissions::none();
    a.grant_index("logs".to_string(), IndexPrivileges::read());
    let mut b = Permissions::none();
    b.grant_index("logs".to_string(), IndexPrivileges::write());
    b.grant_index("docs".to_string(), IndexPrivileges::read());
    a.merge(b);
    assert!(a.check_index("logs", IndexPrivileges::read()));
    assert!(a.check_index("logs", IndexPrivileges::write()));
    assert!(a.check_index("docs", IndexPrivileges::read()));
    assert!(!a.check_index("docs", IndexPrivileges::write()));
    assert!(!a.check_index("other", IndexPrivileges::read()));
}

#[test]
fn granting_one_system_privilege_leaves_the_other_out() {
    let mut p = Permissions::none();
    p.grant_system(SystemPrivileges::manage_security());
    assert!(p.check_system(SystemPrivileges::manage_security()));
    assert!(!p.check_system(SystemPrivileges::manage_indices()));
    p.grant_system(SystemPrivileges::manage_indices());
    assert!(p.check_system(SystemPrivileges::all()));
}

#[test]
fn permissions_all_and_system_check() {
    let all = Permissions::all();
    assert!(all.check_system(SystemPrivileges::manage_security()));
    assert!(all.check_system(SystemPrivileges::all()));
    assert!(!all.check_index("docs", IndexPrivileges::read()));
    let none = Permissions::none();
    assert!(!none.check_system(SystemPrivileges::manage_security()));
    assert!(none.check_system(SystemPrivileges::none()));
}

#[test]
fn auth_service_add_remove_list() {
    let mut auth = AuthService::new();
    auth.add_user(AddUserReq { name: "alice".to_string(), password: "pw1".to_string() })
        .unwrap();
    let dup = auth.add_user(AddUserReq { name: "alice".to_string(), password: "pw2".to_string() });
    assert!(matches!(dup, Err(Error::AlreadyExists { .. })));
    auth.add_user(AddUserReq { name: "bob".to_string(), password: "pw3".to_string() }).unwrap();

    let users = auth.list_users().unwrap();
    let names: Vec<&str> = users.iter().map(|u| u.name.as_str()).collect();
    assert_eq!(names, vec!["alice", "bob"]);

    assert!(auth.validate_credentials("alice", Some("pw1")));
    assert!(!auth.validate_credentials("alice", Some("pw2")));
    assert!(!auth.validate_credentials("alice", None));
    assert!(!auth.validate_credentials("carol", Some("pw1")));

    auth.remove_user("alice").unwrap();
    assert!(!auth.validate_credentials("alice", Some("pw1")));
    auth.remove_user("never-there").unwrap();
}

#[test]
fn direct_assignment_storage_checks() {
    let mut storage = PermissionsStorage::new();
    let alice = User::new("alice".to_string());
    assert!(storage.get_permissions(&alice).is_none());
    assert!(matches!(
        storage.check_system(&alice, SystemPrivileges::manage_indices()),
        Err(Error::Forbidden { .. })
    ));

    let mut perms = Permissions::none();
    perms.grant_index("docs".to_string(), IndexPrivileges::read());
    storage.assign_permissions("alice".to_string(), perms).unwrap();

    assert!(storage.get_permissions(&alice).is_some());
    assert!(storage.check_index(&alice, "docs", IndexPrivileges::read()).is_ok());
    assert!(matches!(
        storage.check_index(&alice, "docs", IndexPrivileges::write()),
        Err(Error::Forbidden { .. })
    ));
    assert!(storage.check_system(&alice, SystemPrivileges::manage_security()).is_err());

    storage.assign_permissions("alice".to_string(), Permissions::all()).unwrap();
    assert!(storage.check_system(&alice, SystemPrivileges::all()).is_ok());

    let listing = storage.list_users_permissions();
    assert_eq!(listing.len(), 1);
    assert_eq!(listing[0].user, "alice");

    storage.remove_user(&"alice".to_string());
    assert!(storage.get_permissions(&alice).is_none());
}

#[test]
fn rbac_roles_merge_into_effective_permissions() {
    let mut service = AccessControlService::new_test();
    let alice = User::new("alice".to_string());

    let mut reader_perms = Permissions::none();
    reader_perms.grant_index("docs".to_string(), IndexPrivileges::read());
    service.add_role(Role::new("reader".to_string(), reader_perms)).unwrap();

    let mut admin_perms = Permissions::none();
    admin_perms.merge(Permissions::all());
    service.add_role(Role::new("admin".to_string(), admin_perms)).unwrap();

    // nothing assigned yet
    assert!(service.check_index(&alice, "docs", IndexPrivileges::read()).is_err());

    service.add_role_to_user(&alice, "reader").unwrap();
    assert!(service.check_index(&alice, "docs", IndexPrivileges::read()).is_ok());
    assert!(service.check_index(&alice, "docs", IndexPrivileges::write()).is_err());
    assert!(service.check_system(&alice, SystemPrivileges::manage_indices()).is_err());

    service.add_role_to_user(&alice, "admin").unwrap();
    assert!(service.check_system(&alice, SystemPrivileges::manage_indices()).is_ok());
    // the reader grant is still merged in
    assert!(service.check_index(&alice, "docs", IndexPrivileges::read()).is_ok());

    service.remove_role_from_user(&alice, "admin").unwrap();
    assert!(service.check_system(&alice, SystemPrivileges::manage_indices()).is_err());
    assert!(service.check_index(&alice, "docs", IndexPrivileges::read()).is_ok());

    // assigning an unknown role changes nothing
    service.add_role_to_user(&alice, "nonexistent").unwrap();
    assert!(service.check_system(&alice, SystemPrivileges::manage_security()).is_err());
}

#[test]
fn reassigning_a_changed_role_replaces_its_grants() {
    let mut service = AccessControlService::new_test();
    let alice = User::new("alice".to_string());

    let mut v1 = Permissions::none();
    v1.grant_index("docs".to_string(), IndexPrivileges::all());
    service.add_role(Role::new("worker".to_string(), v1)).unwrap();
    service.add_role_to_user(&alice, "worker").unwrap();
    assert!(service.check_index(&alice, "docs", IndexPrivileges::write()).is_ok());

    // the role is redefined with fewer grants and assigned again: the new
    // definition replaces the old one in the user's assignment
    let mut v2 = Permissions::none();
    v2.grant_index("docs".to_string(), IndexPrivileges::read());
    service.add_role(Role::new("worker".to_string(), v2)).unwrap();
    service.add_role_to_user(&alice, "worker").unwrap();
    assert!(service.check_index(&alice, "docs", IndexPrivileges::read()).is_ok());
    assert!(service.check_index(&alice, "docs", IndexPrivileges::write()).is_err());
}

#[test]
fn rbac_model_from_parts_resolves_role_names() {
    let mut reader_perms = Permissions::none();
    reader_perms.grant_index("docs".to_string(), IndexPrivileges::read());
    let roles = vec![
        Arc::new(Role::new("reader".to_string(), reader_perms)),
        Arc::new(Role::new("admin".to_string(), Permissions::all())),
    ];
    let user_roles = vec![
        ("alice".to_string(), vec!["reader".to_string(), "ghost".to_string()]),
        ("bob".to_string(), vec!["admin".to_string()]),
    ];
    let model = RBACModel::from_parts(roles, user_roles);
    let service = AccessControlService::with_model(model);

    let alice = User::new("alice".to_string());
    let bob = User::new("bob".to_string());
    assert!(service.check_index(&alice, "docs", IndexPrivileges::read()).is_ok());
    assert!(service.check_system(&alice, SystemPrivileges::manage_security()).is_err());
    assert!(service.check_system(&bob, SystemPrivileges::all()).is_ok());
}

#[test]
fn rbac_model_parts_round_trip() {
    let roles = vec![
        Arc::new(Role::new("reader".to_string(), Permissions::none())),
        Arc::new(Role::new("admin".to_string(), Permissions::all())),
    ];
    let user_roles = vec![("bob".to_string(), vec!["admin".to_string()])];
    let model = RBACModel::from_parts(roles, user_roles);
    let (roles_out, users_out) = model.parts();
    assert_eq!(roles_out.len(), 2);
    let mut names: Vec<&str> = roles_out.iter().map(|r| r.name().as_str()).collect();
    names.sort();
    assert_eq!(names, vec!["admin", "reader"]);
    assert_eq!(users_out.len(), 1);
    assert_eq!(users_out[0].0, "bob");
    assert_eq!(users_out[0].1, vec!["admin".to_string()]);

    let model2 = RBACModel::from_parts(roles_out, users_out);
    let service = AccessControlService::with_model(model2);
    let bob = User::new("bob".to_string());
    assert!(service.check_system(&bob, SystemPrivileges::all()).is_ok());
}

#[test]
fn roles_table_restriction() {
    let roles = Roles::from_iter(vec![
        Arc::new(Role::new("a".to_string(), Permissions::none())),
        Arc::new(Role::new("b".to_string(), Permissions::none())),
    ]);
    let sub = roles.get_roles(&vec!["b".to_string(), "missing".to_string()]);
    assert!(sub.get(&"b".to_string()).is_some());
    assert!(sub.get(&"a".to_string()).is_none());
    assert!(sub.get(&"missing".to_string()).is_none());
}

#[test]
fn legacy_access_control_admits_everything() {
    let service = searchcore::access_control::AccessControlSerivce::new_test();
    let user = User::new("anyone".to_string());
    let ok = service.check_index_access(
        &user,
        "docs",
        &searchcore::access_control::Permission::WRITE,
    );
    assert!(ok.is_ok());
}
