//! Who may do what with a node.
//!
//! The owner of a node, or of any folder above it, may do anything with it.
//! Anyone else needs the required level, which public access on the node or
//! a folder above it, or an explicit permission stored on the node or above
//! it, can give. Actions reserved to the owner are refused to everyone else.
//!
//! The decision needs the node's ancestors and, in some cases, the user's
//! permission; both come from the repository, so it is taken in two steps
//! between which the caller looks the permission up.

use vstd::prelude::*;
use vstd::string::*;
use crate::error::{text, AppError};
use crate::ids::parse_uuid;
use crate::ids::parsed_uuid;
use crate::ids::now;
use crate::paths::ParentTarget;
use crate::models::{is_root_node_of, level_rank, root_node, AccessLevel, Node, NodeType, Permission};

verus! {

/// What an action requires: a level of access, or being the owner.
#[derive(Clone, Copy, Debug, PartialEq, Eq, Structural)]
pub enum RequiredAccess {
    Level(AccessLevel),
    Owner,
}

/// The outcome of the first step of an access check.
#[derive(Debug)]
pub enum AccessStep {
    /// Access is granted.
    Granted,
    /// Access is refused with this error.
    Denied(AppError),
    /// Only an explicit permission of at least this level can grant access.
    NeedsPermission(AccessLevel),
}

/// Whether the user owns the node or one of the listed ancestors.
pub open spec fn owns_node_or_ancestor(node: Node, ancestors: Seq<Node>, user_id: u128) -> bool {
    node.owner_id == user_id || exists|k: int|
        0 <= k < ancestors.len() && (#[trigger] ancestors[k]).owner_id == user_id
}

/// The highest public level, as a rank, among the node and the listed
/// ancestors.
pub open spec fn max_public_rank(node: Node, ancestors: Seq<Node>) -> int
    decreases ancestors.len(),
{
    if ancestors.len() == 0 {
        level_rank(node.public_access_level)
    } else {
        let before = max_public_rank(node, ancestors.drop_last());
        let last = level_rank(ancestors.last().public_access_level);
        if before >= last {
            before
        } else {
            last
        }
    }
}

/// The highest public level counts the node's own level and every
/// ancestor's, and is one of those levels.
pub proof fn law_max_public_rank_is_the_highest(node: Node, ancestors: Seq<Node>)
    ensures
        max_public_rank(node, ancestors) >= level_rank(node.public_access_level),
        forall|k: int|
            0 <= k < ancestors.len() ==> max_public_rank(node, ancestors) >= level_rank(
                #[trigger] ancestors[k].public_access_level,
            ),
        max_public_rank(node, ancestors) == level_rank(node.public_access_level) || exists|k: int|
            0 <= k < ancestors.len() && max_public_rank(node, ancestors) == level_rank(
                (#[trigger] ancestors[k]).public_access_level,
            ),
    decreases ancestors.len(),
{
    if ancestors.len() > 0 {
        let init = ancestors.drop_last();
        law_max_public_rank_is_the_highest(node, init);
        assert forall|k: int|
            0 <= k < ancestors.len() implies max_public_rank(node, ancestors) >= level_rank(
                #[trigger] ancestors[k].public_access_level,
            ) by {
            if k < ancestors.len() - 1 {
                assert(ancestors[k] == init[k]);
            }
        }
        if max_public_rank(node, ancestors) != level_rank(node.public_access_level) {
            if max_public_rank(node, ancestors) == max_public_rank(node, init) {
                let k = choose|k: int|
                    0 <= k < init.len() && max_public_rank(node, init) == level_rank(
                        (#[trigger] init[k]).public_access_level,
                    );
                assert(ancestors[k] == init[k]);
            } else {
                assert(max_public_rank(node, ancestors) == level_rank(
                    ancestors[ancestors.len() - 1].public_access_level,
                ));
            }
        }
    }
}

/// Public access counts on the node itself: anyone may act on a node at any
/// level up to its own public level, and likewise up to the public level of
/// any folder above it.
pub proof fn law_public_levels_grant_access(
    node: Node,
    ancestors: Seq<Node>,
    perm: Option<Permission>,
    user_id: u128,
    level: AccessLevel,
)
    ensures
        level_rank(level) <= level_rank(node.public_access_level) ==> access_allowed(
            node,
            ancestors,
            perm,
            user_id,
            RequiredAccess::Level(level),
        ),
        forall|k: int|
            0 <= k < ancestors.len() && level_rank(level) <= level_rank(
                (#[trigger] ancestors[k]).public_access_level,
            ) ==> access_allowed(node, ancestors, perm, user_id, RequiredAccess::Level(level)),
{
    law_max_public_rank_is_the_highest(node, ancestors);
}

/// Whether a permission found for the user gives at least the level `level`.
pub open spec fn permission_grants(perm: Option<Permission>, level: AccessLevel) -> bool {
    perm matches Some(p) && level_rank(p.access_level) >= level_rank(level)
}

/// Whether the user may act on the node, given its ancestors and the
/// permission found for the user on it.
pub open spec fn access_allowed(
    node: Node,
    ancestors: Seq<Node>,
    perm: Option<Permission>,
    user_id: u128,
    required: RequiredAccess,
) -> bool {
    owns_node_or_ancestor(node, ancestors, user_id) || (required matches RequiredAccess::Level(l) && (
    max_public_rank(node, ancestors) >= level_rank(l) || permission_grants(perm, l)))
}

/// The message of a refusal of an action reserved to the owner.
pub open spec fn owner_only_message() -> Seq<char> {
    "Only the owner can perform this action"@
}

/// The message of a refusal for want of access.
pub open spec fn no_permission_message() -> Seq<char> {
    "You do not have permission to access this resource"@
}

/// Whether the user owns the node or one of the listed ancestors.
pub fn owns_any(node: &Node, ancestors: &Vec<Node>, user_id: u128) -> (r: bool)
    ensures
        r == owns_node_or_ancestor(*node, ancestors@, user_id),
{
    if node.owner_id == user_id {
        return true;
    }
    let mut i: usize = 0;
    while i < ancestors.len()
        invariant
            i <= ancestors@.len(),
            forall|k: int| 0 <= k < i ==> (#[trigger] ancestors@[k]).owner_id != user_id,
        decreases ancestors@.len() - i,
    {
        if ancestors[i].owner_id == user_id {
            return true;
        }
        i = i + 1;
    }
    false
}

/// The highest public level among the node and the listed ancestors: at
/// least the node's own and each ancestor's, and one of them.
pub fn max_public_access(node: &Node, ancestors: &Vec<Node>) -> (r: AccessLevel)
    ensures
        level_rank(r) == max_public_rank(*node, ancestors@),
        level_rank(r) >= level_rank(node.public_access_level),
        forall|k: int|
            0 <= k < ancestors@.len() ==> level_rank(r) >= level_rank(
                #[trigger] ancestors@[k].public_access_level,
            ),
        r == node.public_access_level || exists|k: int|
            0 <= k < ancestors@.len() && r == (#[trigger] ancestors@[k]).public_access_level,
{
    proof {
        law_max_public_rank_is_the_highest(*node, ancestors@);
    }
    let mut best = node.public_access_level;
    let mut i: usize = 0;
    assert(ancestors@.subrange(0, 0) =~= Seq::<Node>::empty());
    while i < ancestors.len()
        invariant
            i <= ancestors@.len(),
            level_rank(best) == max_public_rank(*node, ancestors@.subrange(0, i as int)),
        decreases ancestors@.len() - i,
    {
        let l = ancestors[i].public_access_level;
        assert(ancestors@.subrange(0, i + 1).drop_last() =~= ancestors@.subrange(0, i as int));
        if l.rank() > best.rank() {
            best = l;
        }
        i = i + 1;
    }
    assert(ancestors@.subrange(0, ancestors@.len() as int) =~= ancestors@);
    best
}

/// The first step of an access check, from the node and its ancestors: the
/// owner of either is granted anything; anyone else is refused an action
/// reserved to the owner, granted a level that public access gives, and
/// otherwise needs an explicit permission of the required level.
pub fn check_ownership_and_public_access(
    node: &Node,
    ancestors: &Vec<Node>,
    user_id: u128,
    required: RequiredAccess,
) -> (r: AccessStep)
    ensures
        owns_node_or_ancestor(*node, ancestors@, user_id) ==> r is Granted,
        !owns_node_or_ancestor(*node, ancestors@, user_id) ==> match required {
            RequiredAccess::Owner => r matches AccessStep::Denied(AppError::Forbidden(m)) && m@
                == owner_only_message(),
            RequiredAccess::Level(l) => if max_public_rank(*node, ancestors@) >= level_rank(l) {
                r is Granted
            } else {
                r == AccessStep::NeedsPermission(l)
            },
        },
        required matches RequiredAccess::Level(l) && level_rank(l) <= level_rank(
            node.public_access_level,
        ) ==> r is Granted,
        r is Granted ==> forall|perm: Option<Permission>|
            access_allowed(*node, ancestors@, perm, user_id, required),
        r is Denied ==> forall|perm: Option<Permission>|
            !access_allowed(*node, ancestors@, perm, user_id, required),
        r matches AccessStep::NeedsPermission(l) ==> required == RequiredAccess::Level(l) && forall|
            perm: Option<Permission>,
        |
            access_allowed(*node, ancestors@, perm, user_id, required) == permission_grants(perm, l),
{
    proof {
        law_max_public_rank_is_the_highest(*node, ancestors@);
    }
    if owns_any(node, ancestors, user_id) {
        return AccessStep::Granted;
    }
    match required {
        RequiredAccess::Owner => AccessStep::Denied(
            AppError::Forbidden(text("Only the owner can perform this action")),
        ),
        RequiredAccess::Level(level) => {
            let max_public = max_public_access(node, ancestors);
            if max_public.at_least(&level) {
                AccessStep::Granted
            } else {
                AccessStep::NeedsPermission(level)
            }
        },
    }
}

/// The second step of an access check, from the permission found for the
/// user: access is granted when it gives at least the required level.
pub fn check_permission(perm: Option<Permission>, required_level: AccessLevel) -> (r: Result<
    (),
    AppError,
>)
    ensures
        r is Ok <==> permission_grants(perm, required_level),
        r matches Err(e) ==> e matches AppError::Forbidden(m) && m@ == no_permission_message(),
{
    match perm {
        Some(p) => {
            if p.access_level.at_least(&required_level) {
                return Ok(());
            }
        },
        None => {},
    }
    Err(AppError::Forbidden(text("You do not have permission to access this resource")))
}

/// The user a request is made by.
#[derive(Clone, Copy, Debug, PartialEq, Eq, Structural)]
pub struct CurrentUser {
    pub id: u128,
}

impl CurrentUser {
    /// The user named by the value of the `x-user-id` header, read as text:
    /// refused when the header is missing (or is not text), a bad request
    /// when it is not a UUID.
    pub fn from_header(value: Option<&str>) -> (r: Result<CurrentUser, AppError>)
        ensures
            value is None ==> (r matches Err(AppError::Forbidden(m)) && m@
                == "Missing x-user-id header"@),
            value matches Some(v) ==> match parsed_uuid(v@) {
                Some(id) => r == Ok::<CurrentUser, AppError>(CurrentUser { id }),
                None => (r matches Err(AppError::BadRequest(m)) && m@ == "Invalid x-user-id format"@),
            },
    {
        match value {
            None => Err(AppError::Forbidden(text("Missing x-user-id header"))),
            Some(v) => match parse_uuid(v) {
                Some(id) => Ok(CurrentUser { id }),
                None => Err(AppError::BadRequest(text("Invalid x-user-id format"))),
            },
        }
    }
}

/// The node a request targets, from what the repository found under
/// `target_id`: the stored node; else, when the target is the user's own
/// identifier, the user's root folder even though it is not stored yet, with
/// the clock's readings as its timestamps; else `NotFound`.
pub fn get_node_or_virtual_root(found: Option<Node>, target_id: u128, user_id: u128) -> (r: Result<
    Node,
    AppError,
>)
    ensures
        match found {
            Some(n) => r == Ok::<Node, AppError>(n),
            None => if target_id == user_id {
                r matches Ok(n) && is_root_node_of(n, user_id)
            } else {
                r matches Err(AppError::NotFound(m)) && m@ == "Resource not found"@
            },
        },
{
    match found {
        Some(node) => Ok(node),
        None => {
            if target_id == user_id {
                let created_at = now();
                let updated_at = now();
                Ok(root_node(user_id, created_at, updated_at))
            } else {
                Err(AppError::NotFound(text("Resource not found")))
            }
        },
    }
}

/// Where a new node is to go: the user's root when the request names no
/// folder or names the user's own identifier, else the folder it names.
pub fn parent_target(parent_id: Option<u128>, user_id: u128) -> (r: ParentTarget)
    ensures
        r == match parent_id {
            Some(p) => if p == user_id {
                ParentTarget::Root
            } else {
                ParentTarget::Folder(p)
            },
            None => ParentTarget::Root,
        },
{
    let target_id = match parent_id {
        Some(p) => p,
        None => user_id,
    };
    if target_id == user_id {
        ParentTarget::Root
    } else {
        ParentTarget::Folder(target_id)
    }
}

/// The folder that a node is to go to, from what the repository found under
/// its identifier: `NotFound` when nothing is there, a bad request when it is
/// a file.
pub fn check_parent_folder(found: Option<Node>) -> (r: Result<Node, AppError>)
    ensures
        match found {
            None => r matches Err(AppError::NotFound(m)) && m@ == "Target parent folder not found"@,
            Some(n) => if n.node_type == NodeType::Folder {
                r == Ok::<Node, AppError>(n)
            } else {
                r matches Err(AppError::BadRequest(m)) && m@ == "Parent must be a folder"@
            },
        },
{
    match found {
        None => Err(AppError::NotFound(text("Target parent folder not found"))),
        Some(n) => {
            if n.node_type == NodeType::Folder {
                Ok(n)
            } else {
                Err(AppError::BadRequest(text("Parent must be a folder")))
            }
        },
    }
}

} // verus!
