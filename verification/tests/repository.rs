use markcollab_backend_filesystem::error::AppError;
use markcollab_backend_filesystem::models::{AccessLevel, Node, NodeType, Permission, Timestamp};
use markcollab_backend_filesystem::repo::InMemoryRepository;

const ALICE: u128 = 0xa1a2a3a4b1b2c1c2d1d2d3d4d5d6d7d8;
const BOB: u128 = 0x0000000000000000000000000000b0b0;

fn hex(id: u128) -> String {
    format!("{:032x}", id)
}

fn node(id: u128, owner: u128, kind: NodeType, name: &str, path: &str) -> Node {
    Node {
        id,
        owner_id: owner,
        node_type: kind,
        name: name.to_string(),
        path: path.to_string(),
        storage_key: None,
        size_bytes: 0,
        public_access_level: AccessLevel::NoAccess,
        created_at: Timestamp { secs: 1, nanos: 500 },
        updated_at: Timestamp { secs: 1, nanos: 500 },
    }
}

/// A tree: root(ALICE) > docs(10) > { b.txt(11), a.txt(12), sub(13) > deep(14) }, and other(20) under root.
fn sample() -> InMemoryRepository {
    let mut repo = InMemoryRepository::new();
    let root = hex(ALICE);
    let docs = format!("{}.{}", root, hex(10));
    let sub = format!("{}.{}", docs, hex(13));
    repo.create_node(node(ALICE, ALICE, NodeType::Folder, "My Drive", &root)).unwrap();
    repo.create_node(node(10, ALICE, NodeType::Folder, "docs", &docs)).unwrap();
    repo.create_node(node(11, ALICE, NodeType::File, "b.txt", &format!("{}.{}", docs, hex(11)))).unwrap();
    repo.create_node(node(12, ALICE, NodeType::File, "a.txt", &format!("{}.{}", docs, hex(12)))).unwrap();
    repo.create_node(node(13, ALICE, NodeType::Folder, "sub", &sub)).unwrap();
    repo.create_node(node(14, ALICE, NodeType::File, "deep", &format!("{}.{}", sub, hex(14)))).unwrap();
    repo.create_node(node(20, ALICE, NodeType::Folder, "other", &format!("{}.{}", root, hex(20)))).unwrap();
    repo
}

fn ids(v: &[Node]) -> Vec<u128> {
    v.iter().map(|n| n.id).collect()
}

#[test]
fn create_then_get_returns_the_node() {
    let mut repo = InMemoryRepository::new();
    let created = repo.create_node(node(5, ALICE, NodeType::File, "x", "p.q")).unwrap();
    assert_eq!(created.id, 5);
    let got = repo.get_node(5).unwrap().unwrap();
    assert_eq!(got.name, "x");
    assert_eq!(got.path, "p.q");
    assert_eq!(got.created_at, Timestamp { secs: 1, nanos: 500 });
    assert!(repo.get_node(6).unwrap().is_none());
}

#[test]
fn create_with_an_existing_id_replaces_the_node() {
    let mut repo = InMemoryRepository::new();
    repo.create_node(node(5, ALICE, NodeType::File, "x", "p")).unwrap();
    repo.create_node(node(5, ALICE, NodeType::File, "y", "p")).unwrap();
    assert_eq!(repo.get_node(5).unwrap().unwrap().name, "y");
    assert_eq!(repo.get_descendants(5).unwrap().len(), 1);
}

#[test]
fn update_of_a_missing_node_is_not_found() {
    let mut repo = InMemoryRepository::new();
    let err = repo.update_node(node(ALICE, ALICE, NodeType::File, "x", "p")).unwrap_err();
    match err {
        AppError::NotFound(m) => {
            assert_eq!(m, "Node a1a2a3a4-b1b2-c1c2-d1d2-d3d4d5d6d7d8 not found")
        }
        other => panic!("unexpected {:?}", other),
    }
    assert!(repo.get_node(ALICE).unwrap().is_none());
}

#[test]
fn update_replaces_a_stored_node() {
    let mut repo = sample();
    let mut n = repo.get_node(11).unwrap().unwrap();
    n.name = "renamed".to_string();
    let updated = repo.update_node(n).unwrap();
    assert_eq!(updated.name, "renamed");
    assert_eq!(repo.get_node(11).unwrap().unwrap().name, "renamed");
}

#[test]
fn children_are_direct_and_sorted_by_name() {
    let repo = sample();
    let docs_path = format!("{}.{}", hex(ALICE), hex(10));
    let children = repo.get_children(&docs_path).unwrap();
    let names: Vec<&str> = children.iter().map(|n| n.name.as_str()).collect();
    assert_eq!(names, vec!["a.txt", "b.txt", "sub"]);
    let root_children = repo.get_children(&hex(ALICE)).unwrap();
    assert_eq!(ids(&root_children), vec![10, 20]);
    assert!(repo.get_children("nothing").unwrap().is_empty());
}

#[test]
fn ancestors_come_from_the_top_down() {
    let repo = sample();
    let anc = repo.get_ancestors(14).unwrap();
    assert_eq!(ids(&anc), vec![ALICE, 10, 13]);
    assert!(repo.get_ancestors(ALICE).unwrap().is_empty());
    assert!(matches!(repo.get_ancestors(99), Err(AppError::NotFound(_))));
}

#[test]
fn descendants_include_the_node_itself() {
    let repo = sample();
    let mut d = ids(&repo.get_descendants(10).unwrap());
    d.sort();
    assert_eq!(d, vec![10, 11, 12, 13, 14]);
    assert_eq!(ids(&repo.get_descendants(14).unwrap()), vec![14]);
    assert!(matches!(repo.get_descendants(99), Err(AppError::NotFound(_))));
}

#[test]
fn delete_removes_the_subtree_and_its_permissions() {
    let mut repo = sample();
    repo.grant_permission(Permission { node_id: 13, user_id: BOB, access_level: AccessLevel::Read }).unwrap();
    repo.grant_permission(Permission { node_id: 20, user_id: BOB, access_level: AccessLevel::Write }).unwrap();
    repo.delete_node(10).unwrap();
    for id in [10u128, 11, 12, 13, 14] {
        assert!(repo.get_node(id).unwrap().is_none());
    }
    assert!(repo.get_node(20).unwrap().is_some());
    assert!(repo.get_node(ALICE).unwrap().is_some());
    assert!(repo.get_node_permissions(13).unwrap().is_empty());
    assert_eq!(repo.get_node_permissions(20).unwrap().len(), 1);
}

#[test]
fn delete_of_a_missing_node_changes_nothing() {
    let mut repo = sample();
    repo.delete_node(99).unwrap();
    assert_eq!(repo.get_descendants(ALICE).unwrap().len(), 7);
}

#[test]
fn root_is_created_once() {
    let mut repo = InMemoryRepository::new();
    let first = repo.get_or_create_root(ALICE).unwrap();
    assert_eq!(first.id, ALICE);
    assert_eq!(first.owner_id, ALICE);
    assert_eq!(first.name, "My Drive");
    assert_eq!(first.path, "a1a2a3a4b1b2c1c2d1d2d3d4d5d6d7d8");
    assert_eq!(first.node_type, NodeType::Folder);
    assert_eq!(first.public_access_level, AccessLevel::NoAccess);
    let second = repo.get_or_create_root(ALICE).unwrap();
    assert_eq!(second.created_at, first.created_at);
    assert_eq!(repo.get_descendants(ALICE).unwrap().len(), 1);
}

#[test]
fn grant_replaces_and_revoke_removes() {
    let mut repo = sample();
    repo.grant_permission(Permission { node_id: 10, user_id: BOB, access_level: AccessLevel::Read }).unwrap();
    repo.grant_permission(Permission { node_id: 10, user_id: BOB, access_level: AccessLevel::Write }).unwrap();
    let perms = repo.get_node_permissions(10).unwrap();
    assert_eq!(perms.len(), 1);
    assert_eq!(perms[0].access_level, AccessLevel::Write);
    repo.revoke_permission(10, BOB).unwrap();
    assert!(repo.get_node_permissions(10).unwrap().is_empty());
    repo.revoke_permission(10, BOB).unwrap();
}

#[test]
fn the_highest_permission_above_a_node_decides() {
    let mut repo = sample();
    repo.grant_permission(Permission { node_id: 10, user_id: BOB, access_level: AccessLevel::Read }).unwrap();
    repo.grant_permission(Permission { node_id: 13, user_id: BOB, access_level: AccessLevel::Write }).unwrap();
    repo.grant_permission(Permission { node_id: 20, user_id: BOB, access_level: AccessLevel::Write }).unwrap();
    let on_deep = repo.get_user_permission(14, BOB).unwrap().unwrap();
    assert_eq!(on_deep.access_level, AccessLevel::Write);
    assert_eq!(on_deep.node_id, 13);
    let on_file = repo.get_user_permission(11, BOB).unwrap().unwrap();
    assert_eq!(on_file.access_level, AccessLevel::Read);
    assert!(repo.get_user_permission(ALICE, BOB).unwrap().is_none());
    assert!(repo.get_user_permission(11, ALICE).unwrap().is_none());
    assert!(repo.get_user_permission(99, BOB).unwrap().is_none());
}

#[test]
fn a_permission_on_a_missing_node_grants_nothing() {
    let mut repo = sample();
    repo.grant_permission(Permission { node_id: 77, user_id: BOB, access_level: AccessLevel::Write }).unwrap();
    assert!(repo.get_user_permission(11, BOB).unwrap().is_none());
    assert_eq!(repo.get_node_permissions(77).unwrap().len(), 1);
}
