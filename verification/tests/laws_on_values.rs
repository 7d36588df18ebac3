use markcollab_backend_filesystem::access::{
    check_ownership_and_public_access, check_permission, AccessStep, RequiredAccess,
};
use markcollab_backend_filesystem::handlers::{folder_node, new_folder_node};
use markcollab_backend_filesystem::models::{AccessLevel, Node, Permission, Timestamp};

const T0: Timestamp = Timestamp { secs: 1, nanos: 0 };
use markcollab_backend_filesystem::paths::{count_dots, generate_path, path_is_below, TargetParent};
use markcollab_backend_filesystem::repo::InMemoryRepository;

const ALICE: u128 = 0xaa;
const BOB: u128 = 0xbb;

fn tree() -> (InMemoryRepository, Node, Node, Node) {
    let mut repo = InMemoryRepository::new();
    let root = repo.get_or_create_root(ALICE).unwrap();
    let docs = folder_node(0x10, ALICE, &TargetParent::Root, "docs".to_string(), T0, T0);
    let inner = folder_node(0x11, ALICE, &TargetParent::Node(docs.clone()), "inner".to_string(), T0, T0);
    repo.create_node(docs.clone()).unwrap();
    repo.create_node(inner.clone()).unwrap();
    (repo, root, docs, inner)
}

#[test]
fn a_grant_reaches_every_node_below() {
    let (mut repo, _root, docs, inner) = tree();
    repo.grant_permission(Permission { node_id: docs.id, user_id: BOB, access_level: AccessLevel::Write }).unwrap();
    for id in [docs.id, inner.id] {
        let p = repo.get_user_permission(id, BOB).unwrap().unwrap();
        assert_eq!(p.access_level, AccessLevel::Write);
    }
    assert!(repo.get_user_permission(ALICE, BOB).unwrap().is_none());
}

#[test]
fn a_revoked_grant_is_not_found() {
    let (mut repo, _root, docs, inner) = tree();
    repo.grant_permission(Permission { node_id: docs.id, user_id: BOB, access_level: AccessLevel::Read }).unwrap();
    repo.revoke_permission(docs.id, BOB).unwrap();
    assert!(repo.get_user_permission(inner.id, BOB).unwrap().is_none());
}

#[test]
fn a_node_made_in_a_folder_is_listed_there() {
    let (mut repo, root, docs, _inner) = tree();
    let made = new_folder_node(&TargetParent::Node(docs.clone()), ALICE, "made".to_string());
    repo.create_node(made.clone()).unwrap();
    let children: Vec<u128> = repo.get_children(&docs.path).unwrap().iter().map(|n| n.id).collect();
    assert!(children.contains(&made.id));
    let at_root: Vec<u128> = repo.get_children(&root.path).unwrap().iter().map(|n| n.id).collect();
    assert_eq!(at_root, vec![docs.id]);
    let descendants: Vec<u128> = repo.get_descendants(docs.id).unwrap().iter().map(|n| n.id).collect();
    assert!(descendants.contains(&made.id));
    let ancestors: Vec<u128> = repo.get_ancestors(made.id).unwrap().iter().map(|n| n.id).collect();
    assert_eq!(ancestors, vec![ALICE, docs.id]);
}

#[test]
fn a_generated_path_is_one_level_deeper() {
    let parent = "abc.def";
    let p = generate_path(&TargetParent::Node(folder_node(1, ALICE, &TargetParent::Root, "x".to_string(), T0, T0)), 0x42, ALICE);
    let parent_path = generate_path(&TargetParent::Root, 1, ALICE);
    assert!(path_is_below(&parent_path, &p));
    assert_eq!(count_dots(&p), count_dots(&parent_path) + 1);
    assert_eq!(count_dots(parent), 1);
    assert!(!path_is_below("abc", "abcd.e"));
    assert!(path_is_below("abc", "abc.e"));
    assert!(!path_is_below("abc", "abc"));
}

#[test]
fn the_owner_is_allowed_and_levels_nest() {
    let n = folder_node(1, ALICE, &TargetParent::Root, "x".to_string(), T0, T0);
    assert!(matches!(
        check_ownership_and_public_access(&n, &vec![], ALICE, RequiredAccess::Owner),
        AccessStep::Granted
    ));
    assert!(matches!(
        check_ownership_and_public_access(&n, &vec![], BOB, RequiredAccess::Owner),
        AccessStep::Denied(_)
    ));
    let write = Some(Permission { node_id: 1, user_id: BOB, access_level: AccessLevel::Write });
    assert!(check_permission(write, AccessLevel::Write).is_ok());
    assert!(check_permission(write, AccessLevel::Read).is_ok());
    assert!(check_permission(write, AccessLevel::NoAccess).is_ok());
}

#[test]
fn what_is_written_is_read_back() {
    let (mut repo, _root, docs, inner) = tree();
    let mut renamed = docs.clone();
    renamed.name = "papers".to_string();
    repo.update_node(renamed).unwrap();
    assert_eq!(repo.get_node(docs.id).unwrap().unwrap().name, "papers");
    assert_eq!(repo.get_node(inner.id).unwrap().unwrap().name, "inner");
}

#[test]
fn the_root_is_made_once() {
    let (mut repo, root, _docs, _inner) = tree();
    let again = repo.get_or_create_root(ALICE).unwrap();
    assert_eq!(again.created_at, root.created_at);
    assert_eq!(again.path, root.path);
    let at_root: Vec<u128> = repo.get_children(&root.path).unwrap().iter().map(|n| n.id).collect();
    assert_eq!(at_root.len(), 1);
}

#[test]
fn a_granted_user_may_act_below_the_folder() {
    let (mut repo, _root, docs, inner) = tree();
    repo.grant_permission(Permission { node_id: docs.id, user_id: BOB, access_level: AccessLevel::Write }).unwrap();
    let ancestors = repo.get_ancestors(inner.id).unwrap();
    match check_ownership_and_public_access(&inner, &ancestors, BOB, RequiredAccess::Level(AccessLevel::Read)) {
        AccessStep::NeedsPermission(level) => {
            let perm = repo.get_user_permission(inner.id, BOB).unwrap();
            assert!(check_permission(perm, level).is_ok());
        }
        other => panic!("unexpected {:?}", other),
    }
    let carol: u128 = 0xcc;
    match check_ownership_and_public_access(&inner, &ancestors, carol, RequiredAccess::Level(AccessLevel::Read)) {
        AccessStep::NeedsPermission(level) => {
            let perm = repo.get_user_permission(inner.id, carol).unwrap();
            assert!(check_permission(perm, level).is_err());
        }
        other => panic!("unexpected {:?}", other),
    }
}
