//! Properties that hold across operations: how permissions flow down the
//! tree, what a deletion leaves, where new nodes are listed, and how access
//! levels nest.

use vstd::prelude::*;
use crate::access::{access_allowed, max_public_rank, owns_node_or_ancestor, permission_grants, RequiredAccess};
use crate::models::{level_rank, AccessLevel, Node, Permission};
use crate::paths::{generated_path, law_generated_path_is_direct_child, target_parent_path, TargetParent};
use crate::repo::{
    after_grant, after_revoke, after_store, ancestor_of, at_or_below, child_of, in_subtree,
    is_best_permission, lookup, perm_applies, perm_key, perms_outside, root_outcome, subtree_ids,
    subtree_of,
};

verus! {

/// A permission granted on a node reaches every node at or below it: after
/// the grant, the permission lookup of that user on any such node finds a
/// permission of at least the granted level.
pub proof fn law_permission_reaches_descendants(
    nodes: Map<u128, Node>,
    perms: Map<(u128, u128), Permission>,
    p: Permission,
    target_id: u128,
    best: Option<Permission>,
)
    requires
        nodes.contains_key(p.node_id),
        nodes.contains_key(target_id),
        at_or_below(nodes[p.node_id].path@, nodes[target_id].path@),
        is_best_permission(nodes, after_grant(perms, p), target_id, p.user_id, best),
    ensures
        best matches Some(b) && level_rank(b.access_level) >= level_rank(p.access_level),
{
    let granted = after_grant(perms, p);
    assert(granted.contains_key(perm_key(p)));
    assert(perm_applies(nodes, nodes[target_id], p.user_id, granted[perm_key(p)]));
}

/// A revoked permission no longer decides anything: the permission lookup
/// after the revocation never answers with the removed pair.
pub proof fn law_revoked_permission_is_not_found(
    nodes: Map<u128, Node>,
    perms: Map<(u128, u128), Permission>,
    node_id: u128,
    user_id: u128,
    target_id: u128,
    best: Option<Permission>,
)
    requires
        forall|key: (u128, u128)| #[trigger] perms.contains_key(key) ==> perm_key(perms[key]) == key,
        is_best_permission(nodes, after_revoke(perms, node_id, user_id), target_id, user_id, best),
    ensures
        best matches Some(b) ==> perm_key(b) != (node_id, user_id),
{
}

/// A grant replaces, it does not add: after two `grant_permission` calls for
/// the same user on the same node, the permissions are those the second call
/// alone would give, and the pair holds the second grant.
pub proof fn law_grant_replaces(
    perms: Map<(u128, u128), Permission>,
    first: Permission,
    second: Permission,
)
    requires
        perm_key(first) == perm_key(second),
    ensures
        after_grant(after_grant(perms, first), second) == after_grant(perms, second),
        after_grant(after_grant(perms, first), second)[perm_key(first)] == second,
{
    assert(after_grant(after_grant(perms, first), second) =~= after_grant(perms, second));
}

/// After deleting a stored node, neither it nor anything below it remains,
/// every other node remains unchanged, and no permission stored on a removed
/// node remains.
pub proof fn law_delete_removes_exactly_the_subtree(
    nodes: Map<u128, Node>,
    perms: Map<(u128, u128), Permission>,
    id: u128,
)
    requires
        nodes.contains_key(id),
        forall|k: u128| #[trigger] nodes.contains_key(k) ==> nodes[k].id == k,
    ensures
        ({
            let after = nodes.remove_keys(subtree_ids(nodes, id));
            &&& forall|k: u128|
                #[trigger] after.contains_key(k) ==> !in_subtree(nodes[id], after[k])
            &&& forall|k: u128|
                #[trigger] nodes.contains_key(k) && !in_subtree(nodes[id], nodes[k]) ==> after.contains_key(k)
                    && after[k] == nodes[k]
        }),
        forall|key: (u128, u128)|
            #[trigger] perms_outside(perms, subtree_ids(nodes, id)).contains_key(key) ==> !(
            nodes.contains_key(key.0) && in_subtree(nodes[id], nodes[key.0])),
{
}

/// A node made in a folder is listed among that folder's children once
/// `create_node` stores it, lies in the folder's subtree, and has the folder
/// among its ancestors.
pub proof fn law_new_node_is_listed_in_its_folder(
    nodes: Map<u128, Node>,
    parent: TargetParent,
    user_id: u128,
    n: Node,
)
    requires
        n.path@ == generated_path(parent, n.id, user_id),
    ensures
        child_of(target_parent_path(parent, user_id))(after_store(nodes, n)[n.id]),
        parent matches TargetParent::Node(p) ==> subtree_of(p)(n) && ancestor_of(n)(p),
{
    law_generated_path_is_direct_child(parent, n.id, user_id);
}

/// The owner of a node or of any folder above it may do anything with it,
/// whatever permissions exist.
pub proof fn law_owner_is_always_allowed(
    node: Node,
    ancestors: Seq<Node>,
    perm: Option<Permission>,
    user_id: u128,
    required: RequiredAccess,
)
    requires
        owns_node_or_ancestor(node, ancestors, user_id),
    ensures
        access_allowed(node, ancestors, perm, user_id, required),
{
}

/// Actions reserved to the owner are allowed to the owner alone: no public
/// access and no permission stands in for ownership.
pub proof fn law_owner_actions_need_ownership(
    node: Node,
    ancestors: Seq<Node>,
    perm: Option<Permission>,
    user_id: u128,
)
    requires
        access_allowed(node, ancestors, perm, user_id, RequiredAccess::Owner),
    ensures
        owns_node_or_ancestor(node, ancestors, user_id),
{
}

/// The highest public level is one of the levels, so never below the lowest.
pub proof fn lemma_max_public_rank_bounds(node: Node, ancestors: Seq<Node>)
    ensures
        0 <= max_public_rank(node, ancestors) <= 2,
    decreases ancestors.len(),
{
    if ancestors.len() > 0 {
        lemma_max_public_rank_bounds(node, ancestors.drop_last());
    }
}

/// Levels nest: whoever may act at a level may act at every lower one; in
/// particular write access includes read access, and no-access requests are
/// always allowed.
pub proof fn law_access_levels_nest(
    node: Node,
    ancestors: Seq<Node>,
    perm: Option<Permission>,
    user_id: u128,
    higher: AccessLevel,
    lower: AccessLevel,
)
    requires
        level_rank(lower) <= level_rank(higher),
        access_allowed(node, ancestors, perm, user_id, RequiredAccess::Level(higher)),
    ensures
        access_allowed(node, ancestors, perm, user_id, RequiredAccess::Level(lower)),
        access_allowed(node, ancestors, perm, user_id, RequiredAccess::Level(AccessLevel::NoAccess)),
{
    lemma_max_public_rank_bounds(node, ancestors);
}

/// What is read back is what was written: after `create_node` (or a
/// successful `update_node`) stores `n`, `get_node` of its identifier finds
/// exactly `n`, and `get_node` of any other identifier finds what it found
/// before.
pub proof fn law_read_after_write(nodes: Map<u128, Node>, n: Node, other: u128)
    requires
        other != n.id,
    ensures
        lookup(after_store(nodes, n), n.id) == Some(n),
        lookup(after_store(nodes, n), other) == lookup(nodes, other),
{
}

/// A root is made once: when `get_or_create_root` is called twice for the
/// same user, the second call changes nothing and returns the node the first
/// returned, whatever fresh root it had ready.
pub proof fn law_root_is_made_once(
    nodes: Map<u128, Node>,
    user_id: u128,
    first: Node,
    second: Node,
    after_first: Map<u128, Node>,
    after_second: Map<u128, Node>,
)
    requires
        root_outcome(nodes, user_id, first) == (after_first, first),
        root_outcome(after_first, user_id, second) == (after_second, second),
    ensures
        after_second == after_first,
        second == first,
        lookup(after_second, user_id) == Some(first),
{
}

/// The children of a node are among its descendants, and the node is among
/// their ancestors.
pub proof fn law_children_are_descendants(parent: Node, child: Node)
    requires
        child_of(parent.path@)(child),
    ensures
        subtree_of(parent)(child),
        ancestor_of(child)(parent),
{
}

/// A user granted a level on a folder may act at that level, or any lower
/// one, on every node at or below it: the permission lookup finds a grant
/// that the access check accepts, whoever owns the nodes and whatever their
/// public access.
pub proof fn law_granted_users_may_act_below(
    nodes: Map<u128, Node>,
    perms: Map<(u128, u128), Permission>,
    p: Permission,
    target_id: u128,
    ancestors: Seq<Node>,
    best: Option<Permission>,
    level: AccessLevel,
)
    requires
        nodes.contains_key(p.node_id),
        nodes.contains_key(target_id),
        at_or_below(nodes[p.node_id].path@, nodes[target_id].path@),
        is_best_permission(nodes, after_grant(perms, p), target_id, p.user_id, best),
        level_rank(level) <= level_rank(p.access_level),
    ensures
        permission_grants(best, level),
        access_allowed(nodes[target_id], ancestors, best, p.user_id, RequiredAccess::Level(level)),
{
    law_permission_reaches_descendants(nodes, perms, p, target_id, best);
}

} // verus!
