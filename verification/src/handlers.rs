//! What the request handlers decide and build: the nodes that creating a
//! folder or a file makes, what an update changes, what a download or a
//! collaboration room needs, and the requests' own data.

use vstd::prelude::*;
use vstd::string::*;
use crate::access::owner_only_message;
use crate::error::{text, AppError};
use crate::ids::{hyphenated_string, hyphenated_text, now, random_uuid, simple_string, simple_text};
use crate::models::{AccessLevel, Node, NodeType, Permission, Timestamp};
use crate::paths::{generate_path, generated_path, ParentTarget, TargetParent};

verus! {

/// How a folder is to be shown: `format=metadata` asks for the folder alone,
/// without its children.
#[derive(Debug)]
pub struct FormatQuery {
    pub format: Option<String>,
}

/// The body of a request that creates a folder.
#[derive(Debug)]
pub struct CreateNodeReq {
    pub name: String,
}

/// The body of a request that renames a node, moves it, or both.
#[derive(Debug)]
pub struct UpdateNodeReq {
    pub name: Option<String>,
    pub parent_id: Option<u128>,
}

/// The body of a request that sets a node's public access.
#[derive(Debug)]
pub struct UpdateAccessReq {
    pub public_access_level: AccessLevel,
}

/// The body of a request that grants a user a level of access to a node.
#[derive(Debug)]
pub struct GrantPermReq {
    pub user_id: u128,
    pub access_level: AccessLevel,
}

/// The query of a request that creates a node: the folder to create it in,
/// if not the user's root.
#[derive(Debug)]
pub struct TargetParentQuery {
    pub parent_id: Option<u128>,
}

impl FormatQuery {
    /// Whether the folder is to be shown without its children.
    pub fn metadata_only(&self) -> (r: bool)
        ensures
            r == (self.format matches Some(f) && f@ == "metadata"@),
    {
        match &self.format {
            Some(f) => *f == text("metadata"),
            None => false,
        }
    }
}

/// The message of the refusal of a request for a folder that is a file.
pub open spec fn not_a_folder_message() -> Seq<char> {
    "Requested ID is not a folder"@
}

/// The message of the refusal of a request for a file that is a folder.
pub open spec fn not_a_file_message() -> Seq<char> {
    "Requested ID is not a file"@
}

/// Refuses a folder request for a node that is not a folder.
pub fn require_folder(node: &Node) -> (r: Result<(), AppError>)
    ensures
        node.node_type == NodeType::Folder ==> r is Ok,
        node.node_type != NodeType::Folder ==> (r matches Err(AppError::BadRequest(m)) && m@
            == not_a_folder_message()),
{
    if node.node_type == NodeType::Folder {
        Ok(())
    } else {
        Err(AppError::BadRequest(text("Requested ID is not a folder")))
    }
}

/// Refuses a file request for a node that is not a file.
pub fn require_file(node: &Node) -> (r: Result<(), AppError>)
    ensures
        node.node_type == NodeType::File ==> r is Ok,
        node.node_type != NodeType::File ==> (r matches Err(AppError::BadRequest(m)) && m@
            == not_a_file_message()),
{
    if node.node_type == NodeType::File {
        Ok(())
    } else {
        Err(AppError::BadRequest(text("Requested ID is not a file")))
    }
}

/// Whether `n` is a node that the user `user_id` has just made in `parent`
/// with identifier `id`, type `kind`, name `name`, and content `storage_key`
/// of `size_bytes` bytes, whatever its timestamps: owned by the user, placed
/// one level below the parent, and not public.
pub open spec fn is_new_node(
    n: Node,
    id: u128,
    user_id: u128,
    parent: TargetParent,
    kind: NodeType,
    name: Seq<char>,
    storage_key: Option<Seq<char>>,
    size_bytes: i64,
) -> bool {
    &&& n.id == id
    &&& n.owner_id == user_id
    &&& n.node_type == kind
    &&& n.name@ == name
    &&& n.path@ == generated_path(parent, id, user_id)
    &&& match storage_key {
        Some(k) => n.storage_key matches Some(s) && s@ == k,
        None => n.storage_key is None,
    }
    &&& n.size_bytes == size_bytes
    &&& n.public_access_level == AccessLevel::NoAccess
}

/// The folder named `name` with identifier `id` that the user `user_id`
/// creates in `parent`, with the given timestamps.
pub fn folder_node(
    id: u128,
    user_id: u128,
    parent: &TargetParent,
    name: String,
    created_at: Timestamp,
    updated_at: Timestamp,
) -> (r: Node)
    ensures
        is_new_node(r, id, user_id, *parent, NodeType::Folder, name@, None, 0),
        r.created_at == created_at,
        r.updated_at == updated_at,
{
    let path = generate_path(parent, id, user_id);
    Node {
        id,
        owner_id: user_id,
        node_type: NodeType::Folder,
        name,
        path,
        storage_key: None,
        size_bytes: 0,
        public_access_level: AccessLevel::NoAccess,
        created_at,
        updated_at,
    }
}

/// A new folder named `name` that the user `user_id` creates in `parent`,
/// with a fresh random identifier and the clock's readings as timestamps.
pub fn new_folder_node(parent: &TargetParent, user_id: u128, name: String) -> (r: Node)
    ensures
        is_new_node(r, r.id, user_id, *parent, NodeType::Folder, name@, None, 0),
        (r.id >> 76u128) & 0xf == 4,
{
    let id = random_uuid();
    let created_at = now();
    let updated_at = now();
    folder_node(id, user_id, parent, name, created_at, updated_at)
}

/// What a multipart upload has delivered so far: the name to give the file,
/// the bytes of content written, and whether a content part came.
#[derive(Debug)]
pub struct Upload {
    pub name: String,
    pub size_bytes: i64,
    pub file_uploaded: bool,
}

/// The kinds of parts that an upload understands.
#[derive(Clone, Copy, Debug, PartialEq, Eq, Structural)]
pub enum FieldKind {
    /// The part holds the file's name.
    Name,
    /// The part holds the file's content.
    File,
    /// The part is ignored.
    Other,
}

/// The kind of an upload part, from its name: `name`, `file`, or anything
/// else (a part without a name among them).
pub fn classify_field(field_name: Option<&str>) -> (r: FieldKind)
    ensures
        r == match field_name {
            Some(f) => if f@ == "name"@ {
                FieldKind::Name
            } else if f@ == "file"@ {
                FieldKind::File
            } else {
                FieldKind::Other
            },
            None => FieldKind::Other,
        },
{
    match field_name {
        Some(f) => {
            let s = text(f);
            if s == text("name") {
                FieldKind::Name
            } else if s == text("file") {
                FieldKind::File
            } else {
                FieldKind::Other
            }
        },
        None => FieldKind::Other,
    }
}

impl Upload {
    /// An upload before any part: the file is called "NewFile" and has no
    /// content.
    pub fn new() -> (r: Upload)
        ensures
            r.name@ == "NewFile"@,
            r.size_bytes == 0,
            !r.file_uploaded,
    {
        Upload { name: text("NewFile"), size_bytes: 0, file_uploaded: false }
    }

    /// Takes the text of a name part as the file's name.
    pub fn set_name(&mut self, name: String)
        ensures
            final(self).name == name,
            final(self).size_bytes == old(self).size_bytes,
            final(self).file_uploaded == old(self).file_uploaded,
    {
        self.name = name;
    }

    /// Counts a chunk of `len` bytes of content.
    pub fn add_chunk(&mut self, len: usize)
        requires
            len <= i64::MAX,
            old(self).size_bytes + len <= i64::MAX,
        ensures
            final(self).size_bytes == old(self).size_bytes + len,
            final(self).name == old(self).name,
            final(self).file_uploaded == old(self).file_uploaded,
    {
        self.size_bytes = add_size(self.size_bytes, len);
    }

    /// Records that a content part has been written whole.
    pub fn mark_uploaded(&mut self)
        ensures
            final(self).file_uploaded,
            final(self).name == old(self).name,
            final(self).size_bytes == old(self).size_bytes,
    {
        self.file_uploaded = true;
    }
}

/// A byte count grown by a chunk of `len` bytes.
pub fn add_size(size_bytes: i64, len: usize) -> (r: i64)
    requires
        len <= i64::MAX,
        size_bytes + len <= i64::MAX,
    ensures
        r == size_bytes + len,
{
    size_bytes + len as i64
}

/// A fresh random identifier for a new file, and the key its content is
/// stored under: the identifier's simple text.
pub fn new_file_identity() -> (r: (u128, String))
    ensures
        r.1@ == simple_text(r.0),
        (r.0 >> 76u128) & 0xf == 4,
{
    let id = random_uuid();
    (id, simple_string(id))
}

/// The file with identifier `id` that the user `user_id` creates in `parent`
/// from a finished upload whose content went under `storage_key`, with the
/// given timestamps. The file keeps the key only when content came.
pub fn file_node(
    id: u128,
    storage_key: String,
    user_id: u128,
    parent: &TargetParent,
    upload: Upload,
    created_at: Timestamp,
    updated_at: Timestamp,
) -> (r: Node)
    ensures
        is_new_node(
            r,
            id,
            user_id,
            *parent,
            NodeType::File,
            upload.name@,
            if upload.file_uploaded {
                Some(storage_key@)
            } else {
                None
            },
            upload.size_bytes,
        ),
        r.created_at == created_at,
        r.updated_at == updated_at,
{
    let path = generate_path(parent, id, user_id);
    let key = if upload.file_uploaded {
        Some(storage_key)
    } else {
        None
    };
    Node {
        id,
        owner_id: user_id,
        node_type: NodeType::File,
        name: upload.name,
        path,
        storage_key: key,
        size_bytes: upload.size_bytes,
        public_access_level: AccessLevel::NoAccess,
        created_at,
        updated_at,
    }
}

/// The new file of a finished upload, with the clock's readings as its
/// timestamps.
pub fn new_file_node(
    id: u128,
    storage_key: String,
    user_id: u128,
    parent: &TargetParent,
    upload: Upload,
) -> (r: Node)
    ensures
        is_new_node(
            r,
            id,
            user_id,
            *parent,
            NodeType::File,
            upload.name@,
            if upload.file_uploaded {
                Some(storage_key@)
            } else {
                None
            },
            upload.size_bytes,
        ),
{
    let created_at = now();
    let updated_at = now();
    file_node(id, storage_key, user_id, parent, upload, created_at, updated_at)
}

/// What serving a file's content needs: where the content is stored, the
/// `Content-Disposition` header, and the `Content-Length`.
#[derive(Debug)]
pub struct Download {
    pub storage_key: String,
    pub content_disposition: String,
    pub content_length: i64,
}

/// The `Content-Disposition` value that offers a download as `name`.
pub open spec fn attachment_text(name: Seq<char>) -> Seq<char> {
    "attachment; filename=\""@ + name + "\""@
}

/// How to serve a node's content: refused for a folder, `NotFound` for a file
/// without content.
pub fn download_plan(node: &Node) -> (r: Result<Download, AppError>)
    ensures
        node.node_type != NodeType::File ==> (r matches Err(AppError::BadRequest(m)) && m@
            == not_a_file_message()),
        node.node_type == NodeType::File ==> match node.storage_key {
            None => r matches Err(AppError::NotFound(m)) && m@ == "File has no content"@,
            Some(k) => r matches Ok(d) && d.storage_key@ == k@ && d.content_disposition@
                == attachment_text(node.name@) && d.content_length == node.size_bytes,
        },
{
    if node.node_type != NodeType::File {
        return Err(AppError::BadRequest(text("Requested ID is not a file")));
    }
    match &node.storage_key {
        None => Err(AppError::NotFound(text("File has no content"))),
        Some(k) => {
            let disposition = text("attachment; filename=\"").concat(node.name.as_str()).concat(
                "\"",
            );
            Ok(Download {
                storage_key: k.clone(),
                content_disposition: disposition,
                content_length: node.size_bytes,
            })
        },
    }
}

/// Whether and where the user `user_id` may move `node` to the folder
/// `new_parent_id`: only the owner may move a node; the user's own
/// identifier names their root.
pub fn plan_move(node: &Node, user_id: u128, new_parent_id: u128) -> (r: Result<ParentTarget, AppError>)
    ensures
        node.owner_id != user_id ==> (r matches Err(AppError::Forbidden(m)) && m@
            == owner_only_message()),
        node.owner_id == user_id && new_parent_id == user_id ==> r == Ok::<ParentTarget, AppError>(
            ParentTarget::Root,
        ),
        node.owner_id == user_id && new_parent_id != user_id ==> r == Ok::<ParentTarget, AppError>(
            ParentTarget::Folder(new_parent_id),
        ),
{
    if node.owner_id != user_id {
        return Err(AppError::Forbidden(text("Only the owner can perform this action")));
    }
    if new_parent_id == user_id {
        Ok(ParentTarget::Root)
    } else {
        Ok(ParentTarget::Folder(new_parent_id))
    }
}

/// Whether `n` is `node` renamed to `new_name` (when given), moved into
/// `new_parent` by the user `user_id` (when given), and stamped `updated_at`,
/// with everything else kept.
pub open spec fn is_updated_node(
    n: Node,
    node: Node,
    new_name: Option<Seq<char>>,
    new_parent: Option<TargetParent>,
    user_id: u128,
    updated_at: Timestamp,
) -> bool {
    &&& n.id == node.id
    &&& n.owner_id == node.owner_id
    &&& n.node_type == node.node_type
    &&& n.name@ == match new_name {
        Some(m) => m,
        None => node.name@,
    }
    &&& n.path@ == match new_parent {
        Some(p) => generated_path(p, node.id, user_id),
        None => node.path@,
    }
    &&& n.storage_key == node.storage_key
    &&& n.size_bytes == node.size_bytes
    &&& n.public_access_level == node.public_access_level
    &&& n.created_at == node.created_at
    &&& n.updated_at == updated_at
}

/// The view of an optional new name.
pub open spec fn name_view(name: Option<String>) -> Option<Seq<char>> {
    match name {
        Some(s) => Some(s@),
        None => None,
    }
}

/// `node` renamed and moved as a request asks, stamped `updated_at`.
pub fn updated_node(
    node: Node,
    new_name: Option<String>,
    new_parent: Option<&TargetParent>,
    user_id: u128,
    updated_at: Timestamp,
) -> (r: Node)
    ensures
        is_updated_node(
            r,
            node,
            name_view(new_name),
            match new_parent {
                Some(p) => Some(*p),
                None => None,
            },
            user_id,
            updated_at,
        ),
{
    let mut n = node;
    match new_name {
        Some(m) => {
            n.name = m;
        },
        None => {},
    }
    match new_parent {
        Some(p) => {
            n.path = generate_path(p, n.id, user_id);
        },
        None => {},
    }
    n.updated_at = updated_at;
    n
}

/// `node` renamed and moved as a request asks, with the clock's reading as
/// its update time.
pub fn apply_update(
    node: Node,
    new_name: Option<String>,
    new_parent: Option<&TargetParent>,
    user_id: u128,
) -> (r: Node)
    ensures
        is_updated_node(
            r,
            node,
            name_view(new_name),
            match new_parent {
                Some(p) => Some(*p),
                None => None,
            },
            user_id,
            r.updated_at,
        ),
{
    let now = now();
    updated_node(node, new_name, new_parent, user_id, now)
}

/// `node` with public access `level`, stamped with the clock's reading.
pub fn with_public_access(node: Node, level: AccessLevel) -> (r: Node)
    ensures
        r == (Node { public_access_level: level, updated_at: r.updated_at, ..node }),
{
    let mut n = node;
    n.public_access_level = level;
    n.updated_at = now();
    n
}

/// The keys of the stored content of the nodes of `s`, in their order.
pub open spec fn storage_keys(s: Seq<Node>) -> Seq<String>
    decreases s.len(),
{
    if s.len() == 0 {
        Seq::empty()
    } else {
        storage_keys(s.drop_last()) + match s.last().storage_key {
            Some(k) => seq![k],
            None => Seq::empty(),
        }
    }
}

/// The keys of the stored content of the listed nodes, in their order.
pub fn storage_keys_of(nodes: &Vec<Node>) -> (r: Vec<String>)
    ensures
        r@ == storage_keys(nodes@),
{
    let mut r: Vec<String> = Vec::new();
    let mut i: usize = 0;
    while i < nodes.len()
        invariant
            i <= nodes@.len(),
            r@ == storage_keys(nodes@.subrange(0, i as int)),
        decreases nodes@.len() - i,
    {
        assert(nodes@.subrange(0, i + 1).drop_last() =~= nodes@.subrange(0, i as int));
        match &nodes[i].storage_key {
            Some(k) => {
                r.push(k.clone());
            },
            None => {},
        }
        i = i + 1;
    }
    assert(nodes@.subrange(0, i as int) =~= nodes@);
    r
}

/// The permission that a grant request on the node `node_id` stores.
pub fn permission_for(node_id: u128, req: &GrantPermReq) -> (r: Permission)
    ensures
        r == (Permission { node_id, user_id: req.user_id, access_level: req.access_level }),
{
    Permission { node_id, user_id: req.user_id, access_level: req.access_level }
}

/// How long, in seconds, the collaboration service keeps an idle room.
pub const ROOM_RETENTION_SECONDS: u64 = 300;

/// The key of the content that a collaboration room on `node` starts from:
/// refused for a folder, `NotFound` for a file without content.
pub fn room_storage_key(node: &Node) -> (r: Result<String, AppError>)
    ensures
        node.node_type != NodeType::File ==> (r matches Err(AppError::BadRequest(m)) && m@
            == not_a_file_message()),
        node.node_type == NodeType::File ==> match node.storage_key {
            None => r matches Err(AppError::NotFound(m)) && m@ == "File has no content yet"@,
            Some(k) => r == Ok::<String, AppError>(k),
        },
{
    if node.node_type != NodeType::File {
        return Err(AppError::BadRequest(text("Requested ID is not a file")));
    }
    match &node.storage_key {
        None => Err(AppError::NotFound(text("File has no content yet"))),
        Some(k) => Ok(k.clone()),
    }
}

/// The outcome of asking the collaboration service to open a room, from
/// whether it answered with a success status.
pub fn room_init_outcome(success: bool) -> (r: Result<(), AppError>)
    ensures
        success ==> r is Ok,
        !success ==> (r matches Err(AppError::Internal(m)) && m@
            == "Failed to initialize room in Sync MS"@),
{
    if success {
        Ok(())
    } else {
        Err(AppError::Internal(text("Failed to initialize room in Sync MS")))
    }
}

/// The WebSocket address of the collaboration room of the node `id`.
pub open spec fn room_ws_url_text(id: u128) -> Seq<char> {
    "ws://sync-ms/room/"@ + hyphenated_text(id)
}

/// The WebSocket address of the collaboration room of the node `id`.
pub fn room_ws_url(id: u128) -> (r: String)
    ensures
        r@ == room_ws_url_text(id),
{
    text("ws://sync-ms/room/").concat(hyphenated_string(id).as_str())
}

/// The message of the error for a file that is not stored.
pub open spec fn file_not_found_message(id: u128) -> Seq<char> {
    "File "@ + hyphenated_text(id) + " not found"@
}

/// The file `id` from what the repository found under it, or `NotFound`.
pub fn file_or_not_found(found: Option<Node>, id: u128) -> (r: Result<Node, AppError>)
    ensures
        match found {
            Some(n) => r == Ok::<Node, AppError>(n),
            None => r matches Err(AppError::NotFound(m)) && m@ == file_not_found_message(id),
        },
{
    match found {
        Some(n) => Ok(n),
        None => Err(AppError::NotFound(
            text("File ").concat(hyphenated_string(id).as_str()).concat(" not found"),
        )),
    }
}

/// The storage reference that the internal service is given for a node: its
/// content key, or "none".
pub fn storage_reference(node: &Node) -> (r: String)
    ensures
        r@ == match node.storage_key {
            Some(k) => k@,
            None => "none"@,
        },
{
    match &node.storage_key {
        Some(k) => k.clone(),
        None => text("none"),
    }
}

/// The key under which new content of a node is written: its current key, or
/// the simple text of its identifier when it has none.
pub fn content_storage_key(node: &Node) -> (r: String)
    ensures
        r@ == match node.storage_key {
            Some(k) => k@,
            None => simple_text(node.id),
        },
{
    match &node.storage_key {
        Some(k) => k.clone(),
        None => simple_string(node.id),
    }
}

/// Whether a node must be stored again after content of `size_bytes` bytes
/// was written for it: it had no content key, or it recorded another size.
pub open spec fn needs_content_update(node: Node, size_bytes: i64) -> bool {
    node.storage_key is None || node.size_bytes != size_bytes
}

/// The node to store after new content of `size_bytes` bytes was written under
/// `storage_key`: when it must be stored again, the node with that key and
/// size, everything else kept; otherwise nothing.
pub fn content_update(node: Node, storage_key: String, size_bytes: i64) -> (r: Option<Node>)
    ensures
        r is Some <==> needs_content_update(node, size_bytes),
        r matches Some(n) ==> n == (Node { storage_key: Some(storage_key), size_bytes, ..node }),
        node.size_bytes != size_bytes ==> r == Some(
            Node { storage_key: Some(storage_key), size_bytes, ..node },
        ),
        node.storage_key is None ==> r == Some(
            Node { storage_key: Some(storage_key), size_bytes, ..node },
        ),
        r is None ==> node.storage_key is Some && node.size_bytes == size_bytes,
{
    if node.storage_key.is_none() || node.size_bytes != size_bytes {
        let mut n = node;
        n.storage_key = Some(storage_key);
        n.size_bytes = size_bytes;
        Some(n)
    } else {
        None
    }
}

/// Content of a new size, or a node without a content key, always makes the
/// node be stored again; only a node that already has a key and records
/// exactly the written size is left as it is.
pub proof fn law_content_update_records_every_new_size(node: Node, size_bytes: i64)
    ensures
        node.size_bytes != size_bytes ==> needs_content_update(node, size_bytes),
        node.storage_key is None ==> needs_content_update(node, size_bytes),
        !needs_content_update(node, size_bytes) ==> node.storage_key is Some && node.size_bytes
            == size_bytes,
{
}

/// Recording the same content twice stores the node once: the node that
/// `content_update` gives needs no update for the same size.
pub proof fn law_content_update_settles(node: Node, storage_key: String, size_bytes: i64)
    ensures
        !needs_content_update(
            Node { storage_key: Some(storage_key), size_bytes, ..node },
            size_bytes,
        ),
{
}

} // verus!
