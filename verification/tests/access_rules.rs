use markcollab_backend_filesystem::access::{
    check_ownership_and_public_access, check_parent_folder, check_permission,
    get_node_or_virtual_root, parent_target, AccessStep, CurrentUser, RequiredAccess,
};
use markcollab_backend_filesystem::error::AppError;
use markcollab_backend_filesystem::paths::ParentTarget;
use markcollab_backend_filesystem::models::{AccessLevel, Node, NodeType, Permission, Timestamp};

const OWNER: u128 = 1;
const OTHER: u128 = 2;

fn node(id: u128, owner: u128, kind: NodeType, public: AccessLevel) -> Node {
    Node {
        id,
        owner_id: owner,
        node_type: kind,
        name: "n".to_string(),
        path: "p".to_string(),
        storage_key: None,
        size_bytes: 0,
        public_access_level: public,
        created_at: Timestamp { secs: 0, nanos: 0 },
        updated_at: Timestamp { secs: 0, nanos: 0 },
    }
}

fn forbidden_message(e: AppError) -> String {
    match e {
        AppError::Forbidden(m) => m,
        other => panic!("unexpected {:?}", other),
    }
}

#[test]
fn the_owner_is_granted_everything() {
    let n = node(10, OWNER, NodeType::File, AccessLevel::NoAccess);
    for req in [
        RequiredAccess::Owner,
        RequiredAccess::Level(AccessLevel::Read),
        RequiredAccess::Level(AccessLevel::Write),
    ] {
        assert!(matches!(
            check_ownership_and_public_access(&n, &vec![], OWNER, req),
            AccessStep::Granted
        ));
    }
}

#[test]
fn the_owner_of_an_ancestor_is_granted() {
    let n = node(10, OTHER, NodeType::File, AccessLevel::NoAccess);
    let anc = vec![node(1, OWNER, NodeType::Folder, AccessLevel::NoAccess)];
    assert!(matches!(
        check_ownership_and_public_access(&n, &anc, OWNER, RequiredAccess::Owner),
        AccessStep::Granted
    ));
}

#[test]
fn owner_actions_are_refused_to_others() {
    let n = node(10, OWNER, NodeType::File, AccessLevel::Write);
    match check_ownership_and_public_access(&n, &vec![], OTHER, RequiredAccess::Owner) {
        AccessStep::Denied(e) => {
            assert_eq!(forbidden_message(e), "Only the owner can perform this action")
        }
        other => panic!("unexpected {:?}", other),
    }
}

#[test]
fn public_access_of_an_ancestor_grants_reading() {
    let n = node(10, OWNER, NodeType::File, AccessLevel::NoAccess);
    let anc = vec![
        node(1, OWNER, NodeType::Folder, AccessLevel::Read),
        node(2, OWNER, NodeType::Folder, AccessLevel::NoAccess),
    ];
    assert!(matches!(
        check_ownership_and_public_access(&n, &anc, OTHER, RequiredAccess::Level(AccessLevel::Read)),
        AccessStep::Granted
    ));
    assert!(matches!(
        check_ownership_and_public_access(&n, &anc, OTHER, RequiredAccess::Level(AccessLevel::Write)),
        AccessStep::NeedsPermission(AccessLevel::Write)
    ));
}

#[test]
fn no_access_is_always_granted() {
    let n = node(10, OWNER, NodeType::File, AccessLevel::NoAccess);
    assert!(matches!(
        check_ownership_and_public_access(&n, &vec![], OTHER, RequiredAccess::Level(AccessLevel::NoAccess)),
        AccessStep::Granted
    ));
}

#[test]
fn a_permission_of_the_level_or_higher_grants() {
    let p = |l| Some(Permission { node_id: 10, user_id: OTHER, access_level: l });
    assert!(check_permission(p(AccessLevel::Write), AccessLevel::Read).is_ok());
    assert!(check_permission(p(AccessLevel::Read), AccessLevel::Read).is_ok());
    let e = check_permission(p(AccessLevel::Read), AccessLevel::Write).unwrap_err();
    assert_eq!(forbidden_message(e), "You do not have permission to access this resource");
    assert!(check_permission(None, AccessLevel::Read).is_err());
}

#[test]
fn the_user_comes_from_the_header() {
    let u = CurrentUser::from_header(Some("a1a2a3a4-b1b2-c1c2-d1d2-d3d4d5d6d7d8")).unwrap();
    assert_eq!(u.id, 0xa1a2a3a4b1b2c1c2d1d2d3d4d5d6d7d8);
    let simple = CurrentUser::from_header(Some("a1a2a3a4b1b2c1c2d1d2d3d4d5d6d7d8")).unwrap();
    assert_eq!(simple.id, u.id);
    match CurrentUser::from_header(None).unwrap_err() {
        AppError::Forbidden(m) => assert_eq!(m, "Missing x-user-id header"),
        other => panic!("unexpected {:?}", other),
    }
    match CurrentUser::from_header(Some("not-a-uuid")).unwrap_err() {
        AppError::BadRequest(m) => assert_eq!(m, "Invalid x-user-id format"),
        other => panic!("unexpected {:?}", other),
    }
}

#[test]
fn a_missing_own_root_is_made_up() {
    let found = node(5, OWNER, NodeType::File, AccessLevel::NoAccess);
    assert_eq!(get_node_or_virtual_root(Some(found), 5, OWNER).unwrap().id, 5);
    let root = get_node_or_virtual_root(None, OWNER, OWNER).unwrap();
    assert_eq!(root.id, OWNER);
    assert_eq!(root.name, "My Drive");
    assert_eq!(root.path, "00000000000000000000000000000001");
    assert_eq!(root.node_type, NodeType::Folder);
    match get_node_or_virtual_root(None, 9, OWNER).unwrap_err() {
        AppError::NotFound(m) => assert_eq!(m, "Resource not found"),
        other => panic!("unexpected {:?}", other),
    }
}

#[test]
fn the_parent_defaults_to_the_root_and_must_be_a_folder() {
    assert_eq!(parent_target(None, OWNER), ParentTarget::Root);
    assert_eq!(parent_target(Some(OWNER), OWNER), ParentTarget::Root);
    assert_eq!(parent_target(Some(7), OWNER), ParentTarget::Folder(7));
    match check_parent_folder(None).unwrap_err() {
        AppError::NotFound(m) => assert_eq!(m, "Target parent folder not found"),
        other => panic!("unexpected {:?}", other),
    }
    let file = node(3, OWNER, NodeType::File, AccessLevel::NoAccess);
    match check_parent_folder(Some(file)).unwrap_err() {
        AppError::BadRequest(m) => assert_eq!(m, "Parent must be a folder"),
        other => panic!("unexpected {:?}", other),
    }
    let folder = node(4, OWNER, NodeType::Folder, AccessLevel::NoAccess);
    assert_eq!(check_parent_folder(Some(folder)).unwrap().id, 4);
}
