//! The records the service stores: nodes of the file tree and the explicit
//! permissions granted on them.

use vstd::prelude::*;
use vstd::string::*;
use crate::ids::{simple_string, simple_text};

verus! {

/// How much a user may do with a node. The levels are ordered
/// `NoAccess < Read < Write`.
#[derive(Clone, Copy, Debug, PartialEq, Eq, Structural, PartialOrd, Ord, Hash)]
pub enum AccessLevel {
    NoAccess,
    Read,
    Write,
}

/// The position of a level in the order `NoAccess < Read < Write`.
pub open spec fn level_rank(l: AccessLevel) -> int {
    match l {
        AccessLevel::NoAccess => 0,
        AccessLevel::Read => 1,
        AccessLevel::Write => 2,
    }
}

impl AccessLevel {
    /// The position of this level in the order `NoAccess < Read < Write`.
    pub fn rank(&self) -> (r: u8)
        ensures
            r == level_rank(*self),
    {
        match self {
            AccessLevel::NoAccess => 0,
            AccessLevel::Read => 1,
            AccessLevel::Write => 2,
        }
    }

    /// Whether this level is at least `other`.
    pub fn at_least(&self, other: &AccessLevel) -> (r: bool)
        ensures
            r == (level_rank(*self) >= level_rank(*other)),
    {
        self.rank() >= other.rank()
    }
}

/// Whether a node is a file or a folder.
#[derive(Clone, Copy, Debug, PartialEq, Eq, Structural, Hash)]
pub enum NodeType {
    File,
    Folder,
}

/// A point in time: whole seconds since the Unix epoch, and nanoseconds past
/// them.
#[derive(Clone, Copy, Debug, PartialEq, Eq, Structural)]
pub struct Timestamp {
    pub secs: i64,
    pub nanos: u32,
}

/// A file or folder. Its `path` is the dotted chain of the simple texts of
/// the identifiers from the owner's root down to the node itself, such as
/// `root.child.grandchild`.
#[derive(Debug)]
pub struct Node {
    pub id: u128,
    pub owner_id: u128,
    pub node_type: NodeType,
    pub name: String,
    pub path: String,
    pub storage_key: Option<String>,
    pub size_bytes: i64,
    pub public_access_level: AccessLevel,
    pub created_at: Timestamp,
    pub updated_at: Timestamp,
}

/// A copy of an optional string.
pub fn copy_optional_string(s: &Option<String>) -> (r: Option<String>)
    ensures
        r == *s,
{
    match s {
        Some(v) => Some(v.clone()),
        None => None,
    }
}

impl Clone for Node {
    fn clone(&self) -> (r: Self)
        ensures
            r == *self,
    {
        Node {
            id: self.id,
            owner_id: self.owner_id,
            node_type: self.node_type,
            name: self.name.clone(),
            path: self.path.clone(),
            storage_key: copy_optional_string(&self.storage_key),
            size_bytes: self.size_bytes,
            public_access_level: self.public_access_level,
            created_at: self.created_at,
            updated_at: self.updated_at,
        }
    }
}

/// An explicit grant of `access_level` on the node `node_id` (and, through
/// the tree, on everything below it) to the user `user_id`.
#[derive(Clone, Copy, Debug, PartialEq, Eq, Structural)]
pub struct Permission {
    pub node_id: u128,
    pub user_id: u128,
    pub access_level: AccessLevel,
}

/// Whether `n` is the root folder of the user `user_id`, whatever its
/// timestamps: the folder "My Drive" that the user owns, whose identifier is
/// the user's own and whose path is the simple text of that identifier, with
/// no content and no public access.
pub open spec fn is_root_node_of(n: Node, user_id: u128) -> bool {
    &&& n.id == user_id
    &&& n.owner_id == user_id
    &&& n.node_type == NodeType::Folder
    &&& n.name@ == "My Drive"@
    &&& n.path@ == simple_text(user_id)
    &&& n.storage_key is None
    &&& n.size_bytes == 0
    &&& n.public_access_level == AccessLevel::NoAccess
}

/// The root folder of the user `user_id`, with the given timestamps.
pub fn root_node(user_id: u128, created_at: Timestamp, updated_at: Timestamp) -> (r: Node)
    ensures
        is_root_node_of(r, user_id),
        r.created_at == created_at,
        r.updated_at == updated_at,
{
    Node {
        id: user_id,
        owner_id: user_id,
        node_type: NodeType::Folder,
        name: String::from_str("My Drive"),
        path: simple_string(user_id),
        storage_key: None,
        size_bytes: 0,
        public_access_level: AccessLevel::NoAccess,
        created_at,
        updated_at,
    }
}

} // verus!
