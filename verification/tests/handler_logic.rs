use markcollab_backend_filesystem::error::AppError;
use markcollab_backend_filesystem::handlers::{
    add_size, apply_update, classify_field, content_storage_key, content_update, download_plan,
    file_node, file_or_not_found, folder_node, new_file_identity, new_folder_node,
    permission_for, plan_move, require_file, require_folder, room_init_outcome,
    room_storage_key, room_ws_url, storage_keys_of, storage_reference, updated_node,
    with_public_access, FieldKind, FormatQuery, GrantPermReq, Upload,
    ROOM_RETENTION_SECONDS,
};
use markcollab_backend_filesystem::models::{AccessLevel, Node, NodeType, Timestamp};

fn ts(secs: i64) -> Timestamp {
    Timestamp { secs, nanos: 123 }
}
use markcollab_backend_filesystem::paths::{generate_path, ParentTarget, TargetParent};

const USER: u128 = 0x10;

fn node(id: u128, kind: NodeType, key: Option<&str>) -> Node {
    Node {
        id,
        owner_id: USER,
        node_type: kind,
        name: "report.pdf".to_string(),
        path: format!("{:032x}.{:032x}", USER, id),
        storage_key: key.map(|k| k.to_string()),
        size_bytes: 42,
        public_access_level: AccessLevel::Read,
        created_at: ts(5),
        updated_at: ts(6),
    }
}

#[test]
fn paths_append_the_simple_identifier() {
    let root_path = generate_path(&TargetParent::Root, 0xab, USER);
    assert_eq!(
        root_path,
        "00000000000000000000000000000010.000000000000000000000000000000ab"
    );
    let parent = node(0x20, NodeType::Folder, None);
    let child = generate_path(&TargetParent::Node(parent.clone()), 0xab, USER);
    assert_eq!(child, format!("{}.{:032x}", parent.path, 0xab));
}

#[test]
fn metadata_only_needs_the_exact_word() {
    assert!(FormatQuery { format: Some("metadata".to_string()) }.metadata_only());
    assert!(!FormatQuery { format: Some("Metadata".to_string()) }.metadata_only());
    assert!(!FormatQuery { format: None }.metadata_only());
}

#[test]
fn kinds_are_checked() {
    assert!(require_folder(&node(1, NodeType::Folder, None)).is_ok());
    match require_folder(&node(1, NodeType::File, None)).unwrap_err() {
        AppError::BadRequest(m) => assert_eq!(m, "Requested ID is not a folder"),
        other => panic!("unexpected {:?}", other),
    }
    assert!(require_file(&node(1, NodeType::File, None)).is_ok());
    match require_file(&node(1, NodeType::Folder, None)).unwrap_err() {
        AppError::BadRequest(m) => assert_eq!(m, "Requested ID is not a file"),
        other => panic!("unexpected {:?}", other),
    }
}

#[test]
fn a_new_folder_is_private_and_placed_in_its_parent() {
    let f = folder_node(0xab, USER, &TargetParent::Root, "Docs".to_string(), ts(1), ts(2));
    assert_eq!(f.id, 0xab);
    assert_eq!(f.owner_id, USER);
    assert_eq!(f.node_type, NodeType::Folder);
    assert_eq!(f.name, "Docs");
    assert_eq!(f.path, generate_path(&TargetParent::Root, 0xab, USER));
    assert_eq!(f.storage_key, None);
    assert_eq!(f.size_bytes, 0);
    assert_eq!(f.public_access_level, AccessLevel::NoAccess);
    assert_eq!((f.created_at, f.updated_at), (ts(1), ts(2)));
    let g = new_folder_node(&TargetParent::Root, USER, "Docs".to_string());
    assert_eq!(g.path, generate_path(&TargetParent::Root, g.id, USER));
    assert_eq!((g.id >> 76) & 0xf, 4);
}

#[test]
fn uploads_count_their_bytes() {
    assert_eq!(classify_field(Some("name")), FieldKind::Name);
    assert_eq!(classify_field(Some("file")), FieldKind::File);
    assert_eq!(classify_field(Some("other")), FieldKind::Other);
    assert_eq!(classify_field(Some("")), FieldKind::Other);
    assert_eq!(classify_field(None), FieldKind::Other);
    let mut up = Upload::new();
    assert_eq!(up.name, "NewFile");
    up.set_name("notes.txt".to_string());
    up.add_chunk(10);
    up.add_chunk(5);
    up.mark_uploaded();
    assert_eq!(up.size_bytes, 15);
    assert!(up.file_uploaded);
    assert_eq!(add_size(7, 3), 10);
}

#[test]
fn a_new_file_keeps_its_key_only_with_content() {
    let (id, key) = new_file_identity();
    assert_eq!(key, format!("{:032x}", id));
    assert_eq!((id >> 76) & 0xf, 4);
    let mut up = Upload::new();
    up.add_chunk(3);
    up.mark_uploaded();
    let f = file_node(id, key.clone(), USER, &TargetParent::Root, up, ts(1), ts(1));
    assert_eq!(f.storage_key, Some(key.clone()));
    assert_eq!(f.size_bytes, 3);
    assert_eq!(f.node_type, NodeType::File);
    let empty = file_node(id, key, USER, &TargetParent::Root, Upload::new(), ts(1), ts(1));
    assert_eq!(empty.storage_key, None);
    assert_eq!(empty.name, "NewFile");
}

#[test]
fn downloads_need_content() {
    let plan = download_plan(&node(1, NodeType::File, Some("k1"))).unwrap();
    assert_eq!(plan.storage_key, "k1");
    assert_eq!(plan.content_disposition, "attachment; filename=\"report.pdf\"");
    assert_eq!(plan.content_length, 42);
    match download_plan(&node(1, NodeType::File, None)).unwrap_err() {
        AppError::NotFound(m) => assert_eq!(m, "File has no content"),
        other => panic!("unexpected {:?}", other),
    }
    assert!(matches!(download_plan(&node(1, NodeType::Folder, Some("k"))), Err(AppError::BadRequest(_))));
}

#[test]
fn only_owners_move_nodes() {
    let n = node(1, NodeType::File, None);
    assert_eq!(plan_move(&n, USER, USER).unwrap(), ParentTarget::Root);
    assert_eq!(plan_move(&n, USER, 9).unwrap(), ParentTarget::Folder(9));
    match plan_move(&n, 77, 9).unwrap_err() {
        AppError::Forbidden(m) => assert_eq!(m, "Only the owner can perform this action"),
        other => panic!("unexpected {:?}", other),
    }
}

#[test]
fn updates_rename_move_and_stamp() {
    let n = node(1, NodeType::File, Some("k"));
    let renamed = updated_node(n.clone(), Some("b".to_string()), None, USER, ts(99));
    assert_eq!(renamed.name, "b");
    assert_eq!(renamed.path, n.path);
    assert_eq!(renamed.updated_at, ts(99));
    assert_eq!(renamed.created_at, ts(5));
    let parent = node(0x30, NodeType::Folder, None);
    let target = TargetParent::Node(parent.clone());
    let moved = updated_node(n.clone(), None, Some(&target), USER, ts(100));
    assert_eq!(moved.name, n.name);
    assert_eq!(moved.path, format!("{}.{:032x}", parent.path, 1));
    let now = apply_update(n.clone(), None, None, USER);
    assert_eq!(now.path, n.path);
    let public = with_public_access(n, AccessLevel::Write);
    assert_eq!(public.public_access_level, AccessLevel::Write);
    assert_eq!(public.storage_key, Some("k".to_string()));
}

#[test]
fn storage_keys_skip_nodes_without_content() {
    let v = vec![
        node(1, NodeType::File, Some("a")),
        node(2, NodeType::Folder, None),
        node(3, NodeType::File, Some("c")),
    ];
    assert_eq!(storage_keys_of(&v), vec!["a".to_string(), "c".to_string()]);
}

#[test]
fn rooms_need_a_file_with_content() {
    assert_eq!(room_storage_key(&node(1, NodeType::File, Some("k"))).unwrap(), "k");
    match room_storage_key(&node(1, NodeType::File, None)).unwrap_err() {
        AppError::NotFound(m) => assert_eq!(m, "File has no content yet"),
        other => panic!("unexpected {:?}", other),
    }
    assert!(room_init_outcome(true).is_ok());
    match room_init_outcome(false).unwrap_err() {
        AppError::Internal(m) => assert_eq!(m, "Failed to initialize room in Sync MS"),
        other => panic!("unexpected {:?}", other),
    }
    assert_eq!(
        room_ws_url(0xa1a2a3a4b1b2c1c2d1d2d3d4d5d6d7d8),
        "ws://sync-ms/room/a1a2a3a4-b1b2-c1c2-d1d2-d3d4d5d6d7d8"
    );
    assert_eq!(ROOM_RETENTION_SECONDS, 300);
}

#[test]
fn grants_name_the_node() {
    let p = permission_for(8, &GrantPermReq { user_id: 9, access_level: AccessLevel::Read });
    assert_eq!((p.node_id, p.user_id, p.access_level), (8, 9, AccessLevel::Read));
}

#[test]
fn internal_lookups() {
    match file_or_not_found(None, 0xa1a2a3a4b1b2c1c2d1d2d3d4d5d6d7d8).unwrap_err() {
        AppError::NotFound(m) => {
            assert_eq!(m, "File a1a2a3a4-b1b2-c1c2-d1d2-d3d4d5d6d7d8 not found")
        }
        other => panic!("unexpected {:?}", other),
    }
    assert_eq!(storage_reference(&node(1, NodeType::File, Some("k"))), "k");
    assert_eq!(storage_reference(&node(1, NodeType::File, None)), "none");
    assert_eq!(content_storage_key(&node(0xab, NodeType::File, None)), format!("{:032x}", 0xab));
    assert_eq!(content_storage_key(&node(0xab, NodeType::File, Some("k"))), "k");
}

#[test]
fn content_is_recorded_once() {
    let n = node(1, NodeType::File, None);
    let updated = content_update(n, "key".to_string(), 42).unwrap();
    assert_eq!(updated.storage_key, Some("key".to_string()));
    assert!(content_update(updated.clone(), "key".to_string(), 42).is_none());
    let resized = content_update(updated, "key".to_string(), 7).unwrap();
    assert_eq!(resized.size_bytes, 7);
}
