//! A repository that keeps every node and permission in memory.
//!
//! Nodes are held in a hash map keyed by their identifier; permissions in a
//! list in which no pair of node and user occurs twice, viewed as a map keyed
//! by that pair. Every query answers from that state alone: lists hold each
//! matching record once, children are ordered by name and ancestors from the
//! top of the tree down; other lists come in the order the map hands its
//! entries out.

use vstd::prelude::*;
use vstd::string::*;
use vstd::std_specs::iter::IteratorSpec;
use std::collections::HashMap;
use crate::error::{AppError, text};
use crate::ids::{hyphenated_string, hyphenated_text, now};
use crate::models::{is_root_node_of, level_rank, root_node, Node, Permission};
use crate::paths::{count_dots, dot_count, is_below, path_is_below};
use crate::order::{byte_len, law_name_order_is_string_order, string_order, lex_le, lemma_lex_total, lemma_lex_transitive, lemma_prefix_byte_len, text_le};

verus! {

broadcast use {vstd::std_specs::hash::group_hash_axioms, vstd::std_specs::hash::axiom_spec_keys_iter};

/// The key under which a permission is stored.
pub open spec fn perm_key(p: Permission) -> (u128, u128) {
    (p.node_id, p.user_id)
}

/// What looking the identifier `id` up in `nodes` finds.
pub open spec fn lookup(nodes: Map<u128, Node>, id: u128) -> Option<Node> {
    if nodes.contains_key(id) {
        Some(nodes[id])
    } else {
        None
    }
}

/// The nodes after `n` is stored under its identifier.
pub open spec fn after_store(nodes: Map<u128, Node>, n: Node) -> Map<u128, Node> {
    nodes.insert(n.id, n)
}

/// The permissions after `p` is granted: stored under its node and user, in
/// place of what that user had there.
pub open spec fn after_grant(perms: Map<(u128, u128), Permission>, p: Permission) -> Map<
    (u128, u128),
    Permission,
> {
    perms.insert(perm_key(p), p)
}

/// The permissions after the permission of `user_id` on `node_id` is revoked.
pub open spec fn after_revoke(perms: Map<(u128, u128), Permission>, node_id: u128, user_id: u128) -> Map<
    (u128, u128),
    Permission,
> {
    perms.remove((node_id, user_id))
}

/// The nodes after, and the node returned by, a request for the root of the
/// user `user_id` that finds `fresh` ready to store if there is none: the
/// stored root, nothing changed; else `fresh`, now stored.
pub open spec fn root_outcome(nodes: Map<u128, Node>, user_id: u128, fresh: Node) -> (
    Map<u128, Node>,
    Node,
) {
    if nodes.contains_key(user_id) {
        (nodes, nodes[user_id])
    } else {
        (nodes.insert(user_id, fresh), fresh)
    }
}

/// The message of the error for a node that is not stored.
pub open spec fn node_not_found_message(id: u128) -> Seq<char> {
    "Node "@ + hyphenated_text(id) + " not found"@
}

/// Whether the node `n` is the node `target` or lies below it.
pub open spec fn in_subtree(target: Node, n: Node) -> bool {
    n.id == target.id || is_below(target.path@, n.path@)
}

/// Whether the node `n` lies exactly one level below the path `parent_path`.
pub open spec fn is_child_of_path(parent_path: Seq<char>, n: Node) -> bool {
    is_below(parent_path, n.path@) && dot_count(n.path@) == dot_count(parent_path) + 1
}

/// Whether the node `n` lies strictly above the node `target`.
pub open spec fn is_ancestor_of(target: Node, n: Node) -> bool {
    is_below(n.path@, target.path@)
}

/// Whether a path is the path `p` itself or lies below it.
pub open spec fn at_or_below(p: Seq<char>, q: Seq<char>) -> bool {
    q == p || is_below(p, q)
}

/// The identifiers of the nodes that deleting the node `id` removes: the node
/// and everything below it.
pub open spec fn subtree_ids(nodes: Map<u128, Node>, id: u128) -> Set<u128> {
    Set::new(
        |k: u128|
            nodes.contains_key(id) && nodes.contains_key(k) && (k == id || is_below(
                nodes[id].path@,
                nodes[k].path@,
            )),
    )
}

/// Whether the permission `p` of the user `user_id` is stored on a node that
/// holds the node `target` (the node itself or one above it).
pub open spec fn perm_applies(
    nodes: Map<u128, Node>,
    target: Node,
    user_id: u128,
    p: Permission,
) -> bool {
    p.user_id == user_id && nodes.contains_key(p.node_id) && at_or_below(
        nodes[p.node_id].path@,
        target.path@,
    )
}

/// Whether `res` lists each node of `nodes` that satisfies `pred` exactly once,
/// and nothing else.
pub open spec fn lists_exactly(res: Seq<Node>, nodes: Map<u128, Node>, pred: spec_fn(Node) -> bool) -> bool {
    &&& forall|k: int|
        0 <= k < res.len() ==> #[trigger] nodes.contains_key(res[k].id) && nodes[res[k].id] == res[k]
            && pred(res[k])
    &&& forall|id: u128|
        #[trigger] nodes.contains_key(id) && pred(nodes[id]) ==> exists|k: int|
            0 <= k < res.len() && res[k].id == id
    &&& forall|k1: int, k2: int|
        #![trigger res[k1], res[k2]]
        0 <= k1 < k2 < res.len() ==> res[k1].id != res[k2].id
}

/// Whether `res` lists each permission of `perms` that satisfies `pred` exactly
/// once, and nothing else.
pub open spec fn lists_perms_exactly(
    res: Seq<Permission>,
    perms: Map<(u128, u128), Permission>,
    pred: spec_fn(Permission) -> bool,
) -> bool {
    &&& forall|k: int|
        0 <= k < res.len() ==> #[trigger] perms.contains_key(perm_key(res[k])) && perms[perm_key(
            res[k],
        )] == res[k] && pred(res[k])
    &&& forall|key: (u128, u128)|
        #[trigger] perms.contains_key(key) && pred(perms[key]) ==> exists|k: int|
            0 <= k < res.len() && perm_key(res[k]) == key
    &&& forall|k1: int, k2: int|
        #![trigger res[k1], res[k2]]
        0 <= k1 < k2 < res.len() ==> perm_key(res[k1]) != perm_key(res[k2])
}

/// Whether a node of `s` has the identifier `id`.
pub open spec fn listed_id(s: Seq<Node>, id: u128) -> bool {
    exists|k: int| 0 <= k < s.len() && s[k].id == id
}

/// The permissions of `perms` that do not concern a node of `ids`.
pub open spec fn perms_outside(perms: Map<(u128, u128), Permission>, ids: Set<u128>) -> Map<
    (u128, u128),
    Permission,
> {
    perms.restrict(Set::new(|key: (u128, u128)| !ids.contains(key.0)))
}

/// Whether a node of `v` has the identifier `id`.
fn holds_id(v: &Vec<Node>, id: u128) -> (r: bool)
    ensures
        r == listed_id(v@, id),
{
    let mut i: usize = 0;
    while i < v.len()
        invariant
            i <= v@.len(),
            forall|k: int| 0 <= k < i ==> v@[k].id != id,
        decreases v@.len() - i,
    {
        if v[i].id == id {
            return true;
        }
        i = i + 1;
    }
    false
}

/// Whether `best` is what the permission lookup of the user `user_id` on the
/// node `node_id` answers: nothing when the node is not stored or no
/// permission of the user is stored on it or above it; otherwise one such
/// permission whose level is the highest among them.
pub open spec fn is_best_permission(
    nodes: Map<u128, Node>,
    perms: Map<(u128, u128), Permission>,
    node_id: u128,
    user_id: u128,
    best: Option<Permission>,
) -> bool {
    if !nodes.contains_key(node_id) {
        best is None
    } else {
        let target = nodes[node_id];
        match best {
            None => forall|key: (u128, u128)|
                #[trigger] perms.contains_key(key) ==> !perm_applies(nodes, target, user_id, perms[key]),
            Some(p) => {
                &&& perms.contains_key(perm_key(p))
                &&& perms[perm_key(p)] == p
                &&& perm_applies(nodes, target, user_id, p)
                &&& forall|key: (u128, u128)|
                    #[trigger] perms.contains_key(key) && perm_applies(nodes, target, user_id, perms[key])
                        ==> level_rank(perms[key].access_level) <= level_rank(p.access_level)
            },
        }
    }
}

/// Is stored on the node `node_id`.
pub open spec fn on_node(node_id: u128) -> spec_fn(Permission) -> bool {
    |p: Permission| p.node_id == node_id
}

/// Lies one level below the path `parent_path`.
pub open spec fn child_of(parent_path: Seq<char>) -> spec_fn(Node) -> bool {
    |n: Node| is_child_of_path(parent_path, n)
}

/// Lies strictly above the node `target`.
pub open spec fn ancestor_of(target: Node) -> spec_fn(Node) -> bool {
    |n: Node| is_ancestor_of(target, n)
}

/// Is the node `target` or lies below it.
pub open spec fn subtree_of(target: Node) -> spec_fn(Node) -> bool {
    |n: Node| in_subtree(target, n)
}

/// Name order: `a` comes before or ties with `b` when its name is not greater.
pub open spec fn by_name() -> spec_fn(Node, Node) -> bool {
    |a: Node, b: Node| lex_le(a.name@, b.name@)
}

/// Depth order: `a` comes before or ties with `b` when its path is not longer.
pub open spec fn by_path_length() -> spec_fn(Node, Node) -> bool {
    |a: Node, b: Node| a.path@.len() <= b.path@.len()
}

/// Byte order: `a` comes before or ties with `b` when its path takes no more
/// bytes.
pub open spec fn by_path_bytes() -> spec_fn(Node, Node) -> bool {
    |a: Node, b: Node| byte_len(a.path@) <= byte_len(b.path@)
}

/// No order: every node ties with every other.
pub open spec fn any_order() -> spec_fn(Node, Node) -> bool {
    |a: Node, b: Node| true
}

/// Whether every node of `s` is `ord`-before or tied with each node after it.
pub open spec fn sorted_by(s: Seq<Node>, ord: spec_fn(Node, Node) -> bool) -> bool {
    forall|k1: int, k2: int| 0 <= k1 < k2 < s.len() ==> ord(#[trigger] s[k1], #[trigger] s[k2])
}

/// Whether no two nodes of `s` share an identifier.
pub open spec fn ids_distinct(s: Seq<Node>) -> bool {
    forall|k1: int, k2: int|
        #![trigger s[k1], s[k2]]
        0 <= k1 < k2 < s.len() ==> s[k1].id != s[k2].id
}

/// Inserting a node after all that come before it and before the first that
/// does not keeps a list ordered.
proof fn lemma_insert_keeps_order(s: Seq<Node>, j: int, x: Node, ord: spec_fn(Node, Node) -> bool)
    requires
        0 <= j <= s.len(),
        sorted_by(s, ord),
        forall|k: int| 0 <= k < j ==> ord(#[trigger] s[k], x),
        j < s.len() ==> !ord(s[j], x),
        forall|a: Node, b: Node| #[trigger] ord(a, b) || ord(b, a),
        forall|a: Node, b: Node, c: Node|
            #![trigger ord(a, b), ord(b, c)]
            ord(a, b) && ord(b, c) ==> ord(a, c),
    ensures
        sorted_by(s.insert(j, x), ord),
{
    let t = s.insert(j, x);
    assert forall|k1: int, k2: int| 0 <= k1 < k2 < t.len() implies ord(#[trigger] t[k1], #[trigger] t[k2]) by {
        let o1 = if k1 < j { k1 } else { k1 - 1 };
        let o2 = if k2 < j { k2 } else { k2 - 1 };
        if k1 != j && k2 != j {
            assert(t[k1] == s[o1]);
            assert(t[k2] == s[o2]);
            assert(ord(s[o1], s[o2]));
        } else if k2 == j {
            assert(t[k1] == s[k1]);
            assert(ord(s[k1], x));
        } else {
            assert(t[k2] == s[o2]);
            assert(ord(s[j], x) || ord(x, s[j]));
            if o2 > j {
                assert(ord(s[j], s[o2]));
            }
        }
    }
}

/// Inserting a node whose identifier is new keeps identifiers distinct.
proof fn lemma_insert_keeps_ids_distinct(s: Seq<Node>, j: int, x: Node)
    requires
        0 <= j <= s.len(),
        ids_distinct(s),
        forall|k: int| 0 <= k < s.len() ==> #[trigger] s[k].id != x.id,
    ensures
        ids_distinct(s.insert(j, x)),
{
    let t = s.insert(j, x);
    assert forall|k1: int, k2: int| 0 <= k1 < k2 < t.len() implies #[trigger] t[k1].id != #[trigger] t[k2].id by {
        let o1 = if k1 < j { k1 } else { k1 - 1 };
        let o2 = if k2 < j { k2 } else { k2 - 1 };
        if k1 != j && k2 != j {
            assert(t[k1] == s[o1]);
            assert(t[k2] == s[o2]);
        } else if k1 == j {
            assert(t[k2] == s[o2]);
        } else {
            assert(t[k1] == s[o1]);
        }
    }
}

/// The identifiers under which `m` stores nodes, each once, in the order in
/// which the map hands them out.
fn ids_of(m: &HashMap<u128, Node>) -> (v: Vec<u128>)
    ensures
        v@.no_duplicates(),
        forall|id: u128| v@.contains(id) <==> m@.contains_key(id),
{
    let mut v: Vec<u128> = Vec::new();
    for k in it: m.keys()
        invariant
            it.seq() == vstd::std_specs::hash::spec_keys_iter(m).remaining(),
            v@ == it.seq().take(it.index() as int).unref(),
    {
        v.push(*k);
        assert(it.seq().take(it.index() + 1).unref() =~= it.seq().take(it.index() as int).unref().push(
            *k,
        ));
    }
    proof {
        let ks = vstd::std_specs::hash::spec_keys_iter(m).remaining();
        assert(ks.unref().to_set() == m@.dom());
        assert(v@ =~= ks.unref());
        assert forall|id: u128| v@.contains(id) <==> m@.contains_key(id) by {
            if m@.contains_key(id) {
                assert(ks.unref().to_set().contains(id));
            }
        }
    }
    v
}

/// The nodes and permissions of the file tree, kept in memory.
pub struct InMemoryRepository {
    nodes: HashMap<u128, Node>,
    permissions: Vec<Permission>,
    perm_map: Ghost<Map<(u128, u128), Permission>>,
}

impl InMemoryRepository {
    /// The stored nodes, by identifier.
    pub closed spec fn nodes_view(&self) -> Map<u128, Node> {
        self.nodes@
    }

    /// The stored permissions, by node and user.
    pub closed spec fn perms_view(&self) -> Map<(u128, u128), Permission> {
        self.perm_map@
    }

    /// The stored lists agree with the maps above, and no key occurs twice.
    pub closed spec fn wf(&self) -> bool {
        self.nodes_wf() && self.perms_wf()
    }

    /// Every node is stored under its own identifier.
    closed spec fn nodes_wf(&self) -> bool {
        forall|id: u128| #[trigger] self.nodes@.contains_key(id) ==> self.nodes@[id].id == id
    }

    /// The permission list agrees with the permission map, and no pair of node
    /// and user occurs twice.
    closed spec fn perms_wf(&self) -> bool {
        &&& forall|i: int, j: int|
            #![trigger self.permissions@[i], self.permissions@[j]]
            0 <= i < j < self.permissions@.len() ==> perm_key(self.permissions@[i]) != perm_key(
                self.permissions@[j],
            )
        &&& forall|i: int|
            #![trigger self.permissions@[i]]
            0 <= i < self.permissions@.len() ==> self.perm_map@.contains_key(
                perm_key(self.permissions@[i]),
            ) && self.perm_map@[perm_key(self.permissions@[i])] == self.permissions@[i]
        &&& forall|key: (u128, u128)|
            #[trigger] self.perm_map@.contains_key(key) ==> exists|i: int|
                0 <= i < self.permissions@.len() && perm_key(self.permissions@[i]) == key
    }

    /// Every stored node is stored under its own identifier, and every
    /// permission under its own node and user.
    pub proof fn lemma_keys(&self)
        requires
            self.wf(),
        ensures
            forall|id: u128| #[trigger]
                self.nodes_view().contains_key(id) ==> self.nodes_view()[id].id == id,
            forall|key: (u128, u128)| #[trigger]
                self.perms_view().contains_key(key) ==> perm_key(self.perms_view()[key]) == key,
    {
    }

    /// An empty repository.
    pub fn new() -> (r: Self)
        ensures
            r.wf(),
            r.nodes_view() == Map::<u128, Node>::empty(),
            r.perms_view() == Map::<(u128, u128), Permission>::empty(),
    {
        InMemoryRepository {
            nodes: HashMap::new(),
            permissions: Vec::new(),
            perm_map: Ghost(Map::empty()),
        }
    }

    /// The position of the permission of `user_id` on `node_id`, if one is stored.
    fn find_permission(&self, node_id: u128, user_id: u128) -> (r: Option<usize>)
        requires
            self.wf(),
        ensures
            match r {
                Some(i) => i < self.permissions@.len() && perm_key(self.permissions@[i as int]) == (
                node_id,
                user_id,
                ) && self.perms_view().contains_key((node_id, user_id)) && self.perms_view()[(
                node_id,
                user_id,
                )] == self.permissions@[i as int],
                None => !self.perms_view().contains_key((node_id, user_id)),
            },
    {
        let mut i: usize = 0;
        while i < self.permissions.len()
            invariant
                self.wf(),
                i <= self.permissions@.len(),
                forall|j: int| 0 <= j < i ==> perm_key(self.permissions@[j]) != (node_id, user_id),
            decreases self.permissions@.len() - i,
        {
            let p = self.permissions[i];
            if p.node_id == node_id && p.user_id == user_id {
                return Some(i);
            }
            i = i + 1;
        }
        None
    }

    /// Stores `node` under its identifier, replacing what was stored there, and
    /// returns it.
    pub fn create_node(&mut self, node: Node) -> (r: Result<Node, AppError>)
        requires
            old(self).wf(),
        ensures
            final(self).wf(),
            final(self).nodes_view() == after_store(old(self).nodes_view(), node),
            final(self).perms_view() == old(self).perms_view(),
            r == Ok::<Node, AppError>(node),
    {
        let ret = node.clone();
        self.store(node);
        Ok(ret)
    }

    /// Stores `node` under its identifier, in place of what was stored there.
    fn store(&mut self, node: Node)
        requires
            old(self).wf(),
        ensures
            final(self).wf(),
            final(self).nodes_view() == old(self).nodes_view().insert(node.id, node),
            final(self).perms_view() == old(self).perms_view(),
    {
        let ghost old_perms = self.permissions@;
        self.nodes.insert(node.id, node);
        assert(self.permissions@ == old_perms);
        assert(self.perms_wf());
    }

    /// The node stored under `id`, if any.
    pub fn get_node(&self, id: u128) -> (r: Result<Option<Node>, AppError>)
        requires
            self.wf(),
        ensures
            r == Ok::<Option<Node>, AppError>(lookup(self.nodes_view(), id)),
    {
        match self.nodes.get(&id) {
            Some(n) => Ok(Some(n.clone())),
            None => Ok(None),
        }
    }

    /// Replaces the node stored under `node.id` by `node` and returns it; fails
    /// with `NotFound`, changing nothing, when no node is stored there.
    pub fn update_node(&mut self, node: Node) -> (r: Result<Node, AppError>)
        requires
            old(self).wf(),
        ensures
            final(self).wf(),
            final(self).perms_view() == old(self).perms_view(),
            old(self).nodes_view().contains_key(node.id) ==> {
                &&& final(self).nodes_view() == after_store(old(self).nodes_view(), node)
                &&& r == Ok::<Node, AppError>(node)
            },
            !old(self).nodes_view().contains_key(node.id) ==> {
                &&& final(self).nodes_view() == old(self).nodes_view()
                &&& r matches Err(AppError::NotFound(m)) && m@ == node_not_found_message(node.id)
            },
    {
        if !self.nodes.contains_key(&node.id) {
            let msg = text("Node ").concat(hyphenated_string(node.id).as_str()).concat(
                " not found",
            );
            return Err(AppError::NotFound(msg));
        }
        let ret = node.clone();
        self.store(node);
        Ok(ret)
    }

    /// Stores `perm` under its node and user, replacing the level that user had
    /// there.
    pub fn grant_permission(&mut self, perm: Permission) -> (r: Result<(), AppError>)
        requires
            old(self).wf(),
        ensures
            final(self).wf(),
            final(self).nodes_view() == old(self).nodes_view(),
            final(self).perms_view() == after_grant(old(self).perms_view(), perm),
            r is Ok,
    {
        let ghost old_perms = self.permissions@;
        let ghost key = perm_key(perm);
        let ghost new_map = self.perm_map@.insert(perm_key(perm), perm);
        match self.find_permission(perm.node_id, perm.user_id) {
            Some(i) => {
                self.permissions.set(i, perm);
                self.perm_map = Ghost(new_map);
                assert forall|j: int| 0 <= j < self.permissions@.len() implies
                    self.perm_map@.contains_key(perm_key(#[trigger] self.permissions@[j]))
                        && self.perm_map@[perm_key(self.permissions@[j])] == self.permissions@[j] by {
                    if j != i {
                        assert(old_perms[j] == self.permissions@[j]);
                        if j < i {
                            assert(perm_key(old_perms[j]) != perm_key(old_perms[i as int]));
                        } else {
                            assert(perm_key(old_perms[i as int]) != perm_key(old_perms[j]));
                        }
                    }
                }
                assert forall|k: (u128, u128)| #[trigger] self.perm_map@.contains_key(k) implies exists|j: int|
                    0 <= j < self.permissions@.len() && perm_key(self.permissions@[j]) == k by {
                    if k != key {
                        let j = choose|j: int| 0 <= j < old_perms.len() && perm_key(old_perms[j]) == k;
                        assert(perm_key(self.permissions@[j]) == k);
                    } else {
                        assert(perm_key(self.permissions@[i as int]) == k);
                    }
                }
                assert forall|a: int, b: int| 0 <= a < b < self.permissions@.len() implies
                    perm_key(#[trigger] self.permissions@[a]) != perm_key(#[trigger] self.permissions@[b]) by {
                    assert(perm_key(old_perms[a]) != perm_key(old_perms[b]));
                }
            },
            None => {
                self.permissions.push(perm);
                self.perm_map = Ghost(new_map);
                assert forall|j: int| 0 <= j < self.permissions@.len() implies
                    self.perm_map@.contains_key(perm_key(#[trigger] self.permissions@[j]))
                        && self.perm_map@[perm_key(self.permissions@[j])] == self.permissions@[j] by {
                    if j < old_perms.len() {
                        assert(old_perms[j] == self.permissions@[j]);
                        assert(perm_key(old_perms[j]) != key);
                    }
                }
                assert forall|k: (u128, u128)| #[trigger] self.perm_map@.contains_key(k) implies exists|j: int|
                    0 <= j < self.permissions@.len() && perm_key(self.permissions@[j]) == k by {
                    if k != key {
                        let j = choose|j: int| 0 <= j < old_perms.len() && perm_key(old_perms[j]) == k;
                        assert(perm_key(self.permissions@[j]) == k);
                    } else {
                        assert(perm_key(self.permissions@[old_perms.len() as int]) == k);
                    }
                }
                assert forall|a: int, b: int| 0 <= a < b < self.permissions@.len() implies
                    perm_key(#[trigger] self.permissions@[a]) != perm_key(#[trigger] self.permissions@[b]) by {
                    if b == old_perms.len() {
                        assert(self.permissions@[a] == old_perms[a]);
                        assert(self.perm_map@.contains_key(perm_key(old_perms[a])));
                    }
                }
            },
        }
        Ok(())
    }
    /// Removes the permission of `user_id` on `node_id`, if one is stored.
    pub fn revoke_permission(&mut self, node_id: u128, user_id: u128) -> (r: Result<(), AppError>)
        requires
            old(self).wf(),
        ensures
            final(self).wf(),
            final(self).nodes_view() == old(self).nodes_view(),
            final(self).perms_view() == after_revoke(old(self).perms_view(), node_id, user_id),
            r is Ok,
    {
        let ghost old_self = *self;
        let ghost old_perms = self.permissions@;
        let ghost key = (node_id, user_id);
        match self.find_permission(node_id, user_id) {
            Some(i) => {
                self.permissions.remove(i);
                self.perm_map = Ghost(self.perm_map@.remove(key));
                assert(self.permissions@ == old_perms.remove(i as int));
                assert forall|j: int| 0 <= j < self.permissions@.len() implies
                    self.perm_map@.contains_key(perm_key(#[trigger] self.permissions@[j]))
                        && self.perm_map@[perm_key(self.permissions@[j])] == self.permissions@[j] by {
                    if j < i {
                        assert(self.permissions@[j] == old_perms[j]);
                        assert(perm_key(old_perms[j]) != perm_key(old_perms[i as int]));
                    } else {
                        assert(self.permissions@[j] == old_perms[j + 1]);
                        assert(perm_key(old_perms[i as int]) != perm_key(old_perms[j + 1]));
                    }
                }
                assert forall|k: (u128, u128)| #[trigger] self.perm_map@.contains_key(k) implies exists|j: int|
                    0 <= j < self.permissions@.len() && perm_key(self.permissions@[j]) == k by {
                    let j = choose|j: int| 0 <= j < old_perms.len() && perm_key(old_perms[j]) == k;
                    if j < i {
                        assert(perm_key(self.permissions@[j]) == k);
                    } else {
                        assert(j != i);
                        assert(perm_key(self.permissions@[j - 1]) == k);
                    }
                }
                assert forall|a: int, b: int| 0 <= a < b < self.permissions@.len() implies
                    perm_key(#[trigger] self.permissions@[a]) != perm_key(#[trigger] self.permissions@[b]) by {
                    let oa = if a < i { a } else { a + 1 };
                    let ob = if b < i { b } else { b + 1 };
                    assert(self.permissions@[a] == old_perms[oa]);
                    assert(self.permissions@[b] == old_perms[ob]);
                    assert(perm_key(old_perms[oa]) != perm_key(old_perms[ob]));
                }
                assert(self.nodes_wf() == old_self.nodes_wf());
            },
            None => {
                assert(self.perm_map@.remove(key) =~= self.perm_map@);
            },
        }
        Ok(())
    }

    /// The stored permissions that `keep` accepts, each once.
    fn collect_perms<F>(&self, keep: F, Ghost(pred): Ghost<spec_fn(Permission) -> bool>) -> (r: Vec<
        Permission,
    >) where F: Fn(&Permission) -> bool
        requires
            self.wf(),
            forall|p: Permission| #[trigger] keep.requires((&p,)),
            forall|p: Permission, b: bool| keep.ensures((&p,), b) ==> b == pred(p),
        ensures
            lists_perms_exactly(r@, self.perms_view(), pred),
    {
        let mut res: Vec<Permission> = Vec::new();
        let mut i: usize = 0;
        while i < self.permissions.len()
            invariant
                self.wf(),
                forall|p: Permission| #[trigger] keep.requires((&p,)),
                forall|p: Permission, b: bool| keep.ensures((&p,), b) ==> b == pred(p),
                i <= self.permissions@.len(),
                forall|k: int|
                    0 <= k < res@.len() ==> exists|j: int|
                        0 <= j < i && #[trigger] res@[k] == self.permissions@[j],
                forall|k: int| 0 <= k < res@.len() ==> pred(#[trigger] res@[k]),
                forall|j: int|
                    0 <= j < i && pred(#[trigger] self.permissions@[j]) ==> exists|k: int|
                        0 <= k < res@.len() && res@[k] == self.permissions@[j],
                forall|k1: int, k2: int|
                    0 <= k1 < k2 < res@.len() ==> perm_key(#[trigger] res@[k1]) != perm_key(
                        #[trigger] res@[k2],
                    ),
            decreases self.permissions@.len() - i,
        {
            let p = self.permissions[i];
            let ghost old_res = res@;
            if keep(&p) {
                proof {
                    assert forall|k: int| 0 <= k < res@.len() implies perm_key(#[trigger] res@[k])
                        != perm_key(p) by {
                        let j = choose|j: int| 0 <= j < i && res@[k] == self.permissions@[j];
                        assert(perm_key(self.permissions@[j]) != perm_key(self.permissions@[i as int]));
                    }
                }
                res.push(p);
                proof {
                    assert forall|k: int| 0 <= k < res@.len() implies exists|j: int|
                        0 <= j < i + 1 && #[trigger] res@[k] == self.permissions@[j] by {
                        if k == res@.len() - 1 {
                            assert(res@[k] == self.permissions@[i as int]);
                        } else {
                            let j = choose|j: int| 0 <= j < i && res@[k] == self.permissions@[j];
                        }
                    }
                }
            }
            proof {
                assert forall|j: int|
                    0 <= j < i + 1 && pred(#[trigger] self.permissions@[j]) implies exists|k: int|
                        0 <= k < res@.len() && res@[k] == self.permissions@[j] by {
                    if j == i {
                        assert(res@[res@.len() - 1] == self.permissions@[j]);
                    } else {
                        let k = choose|k: int| 0 <= k < old_res.len() && old_res[k] == self.permissions@[j];
                        assert(res@[k] == old_res[k]);
                    }
                }
            }
            i = i + 1;
        }
        let ghost pm = self.perms_view();
        assert forall|k: int| 0 <= k < res@.len() implies #[trigger] pm.contains_key(perm_key(res@[k]))
            && pm[perm_key(res@[k])] == res@[k] && pred(res@[k]) by {
            let j = choose|j: int| 0 <= j < i && res@[k] == self.permissions@[j];
            assert(self.permissions@[j] == res@[k]);
        }
        assert forall|key: (u128, u128)| #[trigger] pm.contains_key(key) && pred(pm[key]) implies exists|k: int|
            0 <= k < res@.len() && perm_key(res@[k]) == key by {
            let j = choose|j: int| 0 <= j < self.permissions@.len() && perm_key(self.permissions@[j]) == key;
            assert(pred(self.permissions@[j]));
        }
        res
    }
    /// The permissions stored on the node `node_id`, each once.
    pub fn get_node_permissions(&self, node_id: u128) -> (r: Result<Vec<Permission>, AppError>)
        requires
            self.wf(),
        ensures
            r matches Ok(v) && lists_perms_exactly(v@, self.perms_view(), on_node(node_id)),
    {
        let keep = |p: &Permission| -> (b: bool)
            ensures
                b == (p.node_id == node_id),
            { p.node_id == node_id };
        Ok(self.collect_perms(keep, Ghost(on_node(node_id))))
    }

    /// The stored nodes that `keep` accepts, each once, in an order where every
    /// node is `before` or tied with each node that follows it.
    #[verifier::rlimit(40)]
    fn collect_sorted<F, G>(
        &self,
        keep: F,
        before: G,
        Ghost(pred): Ghost<spec_fn(Node) -> bool>,
        Ghost(ord): Ghost<spec_fn(Node, Node) -> bool>,
    ) -> (r: Vec<Node>) where F: Fn(&Node) -> bool, G: Fn(&Node, &Node) -> bool
        requires
            self.wf(),
            forall|n: Node| #[trigger] keep.requires((&n,)),
            forall|n: Node, b: bool| keep.ensures((&n,), b) ==> b == pred(n),
            forall|a: Node, b: Node| #[trigger] before.requires((&a, &b)),
            forall|a: Node, b: Node, x: bool| before.ensures((&a, &b), x) ==> x == ord(a, b),
            forall|a: Node, b: Node| #[trigger] ord(a, b) || ord(b, a),
            forall|a: Node, b: Node, c: Node|
                #![trigger ord(a, b), ord(b, c)]
                ord(a, b) && ord(b, c) ==> ord(a, c),
        ensures
            lists_exactly(r@, self.nodes_view(), pred),
            sorted_by(r@, ord),
    {
        let ids = ids_of(&self.nodes);
        let mut res: Vec<Node> = Vec::new();
        let mut i: usize = 0;
        let ghost nv = self.nodes_view();
        while i < ids.len()
            invariant
                self.wf(),
                nv == self.nodes_view(),
                ids@.no_duplicates(),
                forall|id: u128| ids@.contains(id) <==> nv.contains_key(id),
                forall|n: Node| #[trigger] keep.requires((&n,)),
                forall|n: Node, b: bool| keep.ensures((&n,), b) ==> b == pred(n),
                forall|a: Node, b: Node| #[trigger] before.requires((&a, &b)),
                forall|a: Node, b: Node, x: bool| before.ensures((&a, &b), x) ==> x == ord(a, b),
                forall|a: Node, b: Node| #[trigger] ord(a, b) || ord(b, a),
                forall|a: Node, b: Node, c: Node|
                    #![trigger ord(a, b), ord(b, c)]
                    ord(a, b) && ord(b, c) ==> ord(a, c),
                i <= ids@.len(),
                forall|k: int|
                    0 <= k < res@.len() ==> nv.contains_key(#[trigger] res@[k].id) && nv[res@[k].id]
                        == res@[k] && pred(res@[k]),
                forall|k: int|
                    0 <= k < res@.len() ==> exists|m: int| 0 <= m < i && ids@[m] == #[trigger] res@[k].id,
                forall|m: int|
                    0 <= m < i && pred(nv[#[trigger] ids@[m]]) ==> exists|k: int|
                        0 <= k < res@.len() && res@[k].id == ids@[m],
                ids_distinct(res@),
                sorted_by(res@, ord),
            decreases ids@.len() - i,
        {
            let id = ids[i];
            let ghost old_res = res@;
            assert(ids@.contains(id));
            match self.nodes.get(&id) {
                None => {},
                Some(n) => {
                    assert(nv.contains_key(n.id) && nv[n.id] == *n && n.id == id);
                    if keep(n) {
                        let mut j: usize = 0;
                        loop
                            invariant
                                j <= res@.len(),
                                res@ == old_res,
                                forall|a: Node, b: Node| #[trigger] before.requires((&a, &b)),
                                forall|a: Node, b: Node, x: bool|
                                    before.ensures((&a, &b), x) ==> x == ord(a, b),
                                forall|k: int| 0 <= k < j ==> ord(#[trigger] res@[k], *n),
                            ensures
                                j <= res@.len(),
                                res@ == old_res,
                                forall|k: int| 0 <= k < j ==> ord(#[trigger] res@[k], *n),
                                j < res@.len() ==> !ord(res@[j as int], *n),
                            decreases res@.len() - j,
                        {
                            if j >= res.len() {
                                break;
                            }
                            if !before(&res[j], n) {
                                break;
                            }
                            j = j + 1;
                        }
                        let ghost x = *n;
                        proof {
                            assert forall|k: int| 0 <= k < old_res.len() implies #[trigger] old_res[k].id
                                != x.id by {
                                let m = choose|m: int| 0 <= m < i && ids@[m] == old_res[k].id;
                                assert(ids@[m] != ids@[i as int]);
                            }
                        }
                        res.insert(j, n.clone());
                        proof {
                            assert(res@ == old_res.insert(j as int, x));
                            lemma_insert_keeps_order(old_res, j as int, x, ord);
                            lemma_insert_keeps_ids_distinct(old_res, j as int, x);
                            assert forall|k: int|
                                0 <= k < res@.len() implies nv.contains_key(#[trigger] res@[k].id)
                                && nv[res@[k].id] == res@[k] && pred(res@[k]) by {
                                if k < j {
                                    assert(res@[k] == old_res[k]);
                                } else if k > j {
                                    assert(res@[k] == old_res[k - 1]);
                                }
                            }
                            assert forall|k: int| 0 <= k < res@.len() implies exists|m: int|
                                0 <= m < i + 1 && ids@[m] == #[trigger] res@[k].id by {
                                if k < j {
                                    assert(res@[k] == old_res[k]);
                                    let m = choose|m: int| 0 <= m < i && ids@[m] == old_res[k].id;
                                } else if k > j {
                                    assert(res@[k] == old_res[k - 1]);
                                    let m = choose|m: int| 0 <= m < i && ids@[m] == old_res[k - 1].id;
                                } else {
                                    assert(ids@[i as int] == res@[k].id);
                                }
                            }
                            assert forall|m: int|
                                0 <= m < i + 1 && pred(nv[#[trigger] ids@[m]]) implies exists|k: int|
                                0 <= k < res@.len() && res@[k].id == ids@[m] by {
                                if m == i {
                                    assert(res@[j as int].id == ids@[m]);
                                } else {
                                    let k = choose|k: int|
                                        0 <= k < old_res.len() && old_res[k].id == ids@[m];
                                    if k < j {
                                        assert(res@[k] == old_res[k]);
                                    } else {
                                        assert(res@[k + 1] == old_res[k]);
                                    }
                                }
                            }
                        }
                    }
                },
            }
            i = i + 1;
        }
        proof {
            assert forall|id: u128| #[trigger] nv.contains_key(id) && pred(nv[id]) implies exists|k: int|
                0 <= k < res@.len() && res@[k].id == id by {
                assert(ids@.contains(id));
                let m = choose|m: int| 0 <= m < ids@.len() && ids@[m] == id;
                assert(pred(nv[ids@[m]]));
            }
        }
        res
    }

    /// The nodes one level below the path `parent_path`, each once, ordered by
    /// name.
    pub fn get_children(&self, parent_path: &str) -> (r: Result<Vec<Node>, AppError>)
        requires
            self.wf(),
        ensures
            r matches Ok(v) && lists_exactly(v@, self.nodes_view(), child_of(parent_path@))
                && sorted_by(v@, by_name()) && forall|k1: int, k2: int|
                0 <= k1 < k2 < v@.len() ==> string_order(
                    (#[trigger] v@[k1]).name@,
                    (#[trigger] v@[k2]).name@,
                ),
    {
        let keep = |n: &Node| -> (b: bool)
            ensures
                b == is_child_of_path(parent_path@, *n),
            {
                if path_is_below(parent_path, n.path.as_str()) {
                    let d = count_dots(n.path.as_str());
                    let pd = count_dots(parent_path);
                    d > 0 && d - 1 == pd
                } else {
                    false
                }
            };
        let before = |a: &Node, b: &Node| -> (x: bool)
            ensures
                x == lex_le(a.name@, b.name@),
            { text_le(a.name.as_str(), b.name.as_str()) };
        proof {
            let ord = by_name();
            assert forall|a: Node, b: Node| #[trigger] ord(a, b) || ord(b, a) by {
                lemma_lex_total(a.name@, b.name@);
            }
            assert forall|a: Node, b: Node, c: Node| #![trigger ord(a, b), ord(b, c)]
                ord(a, b) && ord(b, c) implies ord(a, c) by {
                lemma_lex_transitive(a.name@, b.name@, c.name@);
            }
        }
        let v = self.collect_sorted(keep, before, Ghost(child_of(parent_path@)), Ghost(by_name()));
        proof {
            assert forall|k1: int, k2: int| 0 <= k1 < k2 < v@.len() implies string_order(
                (#[trigger] v@[k1]).name@,
                (#[trigger] v@[k2]).name@,
            ) by {
                assert(by_name()(v@[k1], v@[k2]));
                law_name_order_is_string_order(v@[k1].name@, v@[k2].name@);
            }
        }
        Ok(v)
    }

    /// The nodes strictly above the node `node_id`, each once, from the top of
    /// the tree down (by the length of their paths, in bytes and so in
    /// characters); fails with `NotFound` when the node is not stored.
    pub fn get_ancestors(&self, node_id: u128) -> (r: Result<Vec<Node>, AppError>)
        requires
            self.wf(),
        ensures
            self.nodes_view().contains_key(node_id) ==> (r matches Ok(v) && lists_exactly(
                v@,
                self.nodes_view(),
                ancestor_of(self.nodes_view()[node_id]),
            ) && sorted_by(v@, by_path_bytes()) && sorted_by(v@, by_path_length())),
            !self.nodes_view().contains_key(node_id) ==> (r matches Err(AppError::NotFound(m))
                && m@ == node_not_found_message(node_id)),
    {
        match self.nodes.get(&node_id) {
            None => Err(AppError::NotFound(
                text("Node ").concat(hyphenated_string(node_id).as_str()).concat(" not found"),
            )),
            Some(target) => {
                let keep = |n: &Node| -> (b: bool)
                    ensures
                        b == is_ancestor_of(*target, *n),
                    { path_is_below(n.path.as_str(), target.path.as_str()) };
                let before = |a: &Node, b: &Node| -> (x: bool)
                    ensures
                        x == (a.path@.len() <= b.path@.len()),
                    { a.path.as_str().unicode_len() <= b.path.as_str().unicode_len() };
                let v = self.collect_sorted(
                    keep,
                    before,
                    Ghost(ancestor_of(*target)),
                    Ghost(by_path_length()),
                );
                proof {
                    let t = target.path@;
                    assert forall|k1: int, k2: int| 0 <= k1 < k2 < v@.len() implies by_path_bytes()(
                        #[trigger] v@[k1],
                        #[trigger] v@[k2],
                    ) by {
                        let p1 = v@[k1].path@;
                        let p2 = v@[k2].path@;
                        assert(self.nodes_view().contains_key(v@[k1].id));
                        assert(self.nodes_view().contains_key(v@[k2].id));
                        assert(ancestor_of(*target)(v@[k1]));
                        assert(ancestor_of(*target)(v@[k2]));
                        assert(t.subrange(0, (p1.len() + 1) as int) == p1 + seq!['.']);
                        assert(t.subrange(0, (p2.len() + 1) as int) == p2 + seq!['.']);
                        assert(p1.len() <= p2.len());
                        assert(p2.subrange(0, p1.len() as int) =~= p1) by {
                            assert forall|j: int| 0 <= j < p1.len() implies p2.subrange(
                                0,
                                p1.len() as int,
                            )[j] == p1[j] by {
                                assert(t.subrange(0, (p1.len() + 1) as int)[j] == t[j]);
                                assert(t.subrange(0, (p2.len() + 1) as int)[j] == t[j]);
                            }
                        }
                        lemma_prefix_byte_len(p1, p2);
                    }
                }
                Ok(v)
            },
        }
    }

    /// The node `node_id` and the nodes below it, each once; fails with
    /// `NotFound` when the node is not stored.
    pub fn get_descendants(&self, node_id: u128) -> (r: Result<Vec<Node>, AppError>)
        requires
            self.wf(),
        ensures
            self.nodes_view().contains_key(node_id) ==> (r matches Ok(v) && lists_exactly(
                v@,
                self.nodes_view(),
                subtree_of(self.nodes_view()[node_id]),
            )),
            !self.nodes_view().contains_key(node_id) ==> (r matches Err(AppError::NotFound(m))
                && m@ == node_not_found_message(node_id)),
    {
        match self.nodes.get(&node_id) {
            None => Err(AppError::NotFound(
                text("Node ").concat(hyphenated_string(node_id).as_str()).concat(" not found"),
            )),
            Some(target) => {
                let keep = |n: &Node| -> (b: bool)
                    ensures
                        b == in_subtree(*target, *n),
                    { n.id == target.id || path_is_below(target.path.as_str(), n.path.as_str()) };
                let before = |a: &Node, b: &Node| -> (x: bool)
                    ensures
                        x,
                    { true };
                Ok(self.collect_sorted(keep, before, Ghost(subtree_of(*target)), Ghost(any_order())))
            },
        }
    }
    /// Removes the node `id`, every node below it, and every permission stored
    /// on one of them. Nothing changes when the node is not stored.
    pub fn delete_node(&mut self, id: u128) -> (r: Result<(), AppError>)
        requires
            old(self).wf(),
        ensures
            final(self).wf(),
            final(self).nodes_view() == old(self).nodes_view().remove_keys(
                subtree_ids(old(self).nodes_view(), id),
            ),
            final(self).perms_view() == perms_outside(
                old(self).perms_view(),
                subtree_ids(old(self).nodes_view(), id),
            ),
            r is Ok,
    {
        let ghost nv = self.nodes_view();
        let ghost pv = self.perms_view();
        let ghost sub = subtree_ids(nv, id);
        match self.nodes.get(&id) {
            None => {
                proof {
                    assert(sub =~= Set::<u128>::empty());
                    assert(nv.remove_keys(sub) =~= nv);
                    assert(perms_outside(pv, sub) =~= pv);
                }
                Ok(())
            },
            Some(target) => {
                let in_sub = |n: &Node| -> (b: bool)
                    ensures
                        b == in_subtree(*target, *n),
                    { n.id == target.id || path_is_below(target.path.as_str(), n.path.as_str()) };
                let any = |a: &Node, b: &Node| -> (x: bool)
                    ensures
                        x,
                    { true };
                let doomed = self.collect_sorted(
                    in_sub,
                    any,
                    Ghost(subtree_of(*target)),
                    Ghost(any_order()),
                );
                proof {
                    self.lemma_keys();
                    assert forall|x: u128| listed_id(doomed@, x) <==> sub.contains(x) by {
                        if listed_id(doomed@, x) {
                            let k = choose|k: int| 0 <= k < doomed@.len() && doomed@[k].id == x;
                            assert(nv.contains_key(doomed@[k].id));
                        }
                        if sub.contains(x) {
                            assert(nv.contains_key(x) && subtree_of(nv[id])(nv[x]));
                        }
                    }
                }
                let keep_perm = |p: &Permission| -> (b: bool)
                    ensures
                        b == !listed_id(doomed@, p.node_id),
                    { !holds_id(&doomed, p.node_id) };
                let ghost perm_pred = |p: Permission| !listed_id(doomed@, p.node_id);
                let kept_perms = self.collect_perms(keep_perm, Ghost(perm_pred));
                let mut j: usize = 0;
                while j < doomed.len()
                    invariant
                        j <= doomed@.len(),
                        forall|x: u128| #[trigger]
                            self.nodes@.contains_key(x) <==> nv.contains_key(x) && !(exists|k: int|
                                0 <= k < j && doomed@[k].id == x),
                        forall|x: u128| #[trigger]
                            self.nodes@.contains_key(x) ==> self.nodes@[x] == nv[x],
                        forall|x: u128| #[trigger] nv.contains_key(x) ==> nv[x].id == x,
                    decreases doomed@.len() - j,
                {
                    let ghost before = self.nodes@;
                    self.nodes.remove(&doomed[j].id);
                    proof {
                        assert forall|x: u128| #[trigger]
                            self.nodes@.contains_key(x) <==> nv.contains_key(x) && !(exists|k: int|
                                0 <= k < j + 1 && doomed@[k].id == x) by {
                            if x == doomed@[j as int].id {
                                assert(!self.nodes@.contains_key(x));
                            } else if nv.contains_key(x) && !(exists|k: int|
                                0 <= k < j && doomed@[k].id == x) {
                                assert(before.contains_key(x));
                                assert(!(exists|k: int| 0 <= k < j + 1 && doomed@[k].id == x));
                            }
                        }
                    }
                    j = j + 1;
                }
                let ghost new_nv = nv.remove_keys(sub);
                let ghost new_pv = perms_outside(pv, sub);
                self.permissions = kept_perms;
                self.perm_map = Ghost(new_pv);
                proof {
                    assert(self.nodes@ =~= new_nv) by {
                        assert forall|x: u128| self.nodes@.contains_key(x) <==> new_nv.contains_key(x) by {
                            assert(listed_id(doomed@, x) <==> exists|k: int|
                                0 <= k < doomed@.len() && doomed@[k].id == x);
                        }
                    }
                    assert(self.nodes_wf());
                    assert forall|j: int| #![trigger self.permissions@[j]] 0 <= j < self.permissions@.len()
                        implies new_pv.contains_key(perm_key(self.permissions@[j])) && new_pv[perm_key(
                        self.permissions@[j],
                    )] == self.permissions@[j] by {
                        assert(pv.contains_key(perm_key(self.permissions@[j])));
                    }
                    assert forall|key: (u128, u128)| #[trigger] new_pv.contains_key(key) implies exists|j: int|
                        0 <= j < self.permissions@.len() && perm_key(self.permissions@[j]) == key by {
                        assert(pv.contains_key(key) && perm_pred(pv[key]));
                    }
                    assert(self.perms_wf());
                }
                Ok(())
            },
        }
    }

    /// The permission of the user `user_id` that decides their access to the
    /// node `node_id`: of those stored on the node or above it, one with the
    /// highest level.
    pub fn get_user_permission(&self, node_id: u128, user_id: u128) -> (r: Result<
        Option<Permission>,
        AppError,
    >)
        requires
            self.wf(),
        ensures
            r matches Ok(best) && is_best_permission(
                self.nodes_view(),
                self.perms_view(),
                node_id,
                user_id,
                best,
            ),
    {
        let ghost nv = self.nodes_view();
        let ghost pv = self.perms_view();
        let target = match self.nodes.get(&node_id) {
            None => {
                return Ok(None);
            },
            Some(t) => t,
        };
        let mut best: Option<Permission> = None;
        let mut i: usize = 0;
        while i < self.permissions.len()
            invariant
                self.wf(),
                nv == self.nodes_view(),
                pv == self.perms_view(),
                nv.contains_key(node_id),
                *target == nv[node_id],
                i <= self.permissions@.len(),
                match best {
                    None => forall|j: int|
                        0 <= j < i ==> !perm_applies(nv, *target, user_id, #[trigger] self.permissions@[j]),
                    Some(p) => {
                        &&& exists|j: int| 0 <= j < i && self.permissions@[j] == p
                        &&& perm_applies(nv, *target, user_id, p)
                        &&& forall|j: int|
                            0 <= j < i && perm_applies(nv, *target, user_id, #[trigger] self.permissions@[j])
                                ==> level_rank(self.permissions@[j].access_level) <= level_rank(
                                p.access_level,
                            )
                    },
                },
            decreases self.permissions@.len() - i,
        {
            let perm = self.permissions[i];
            let mut applies = false;
            if perm.user_id == user_id {
                match self.nodes.get(&perm.node_id) {
                    Some(pn) => {
                        applies = target.path == pn.path || path_is_below(
                            pn.path.as_str(),
                            target.path.as_str(),
                        );
                    },
                    None => {},
                }
            }
            assert(applies == perm_applies(nv, *target, user_id, perm));
            if applies {
                match best {
                    None => {
                        best = Some(perm);
                    },
                    Some(e) => {
                        if perm.access_level.rank() > e.access_level.rank() {
                            best = Some(perm);
                        }
                    },
                }
            }
            i = i + 1;
        }
        proof {
            match best {
                None => {
                    assert forall|key: (u128, u128)| #[trigger] pv.contains_key(key) implies !perm_applies(
                        nv,
                        nv[node_id],
                        user_id,
                        pv[key],
                    ) by {
                        let j = choose|j: int|
                            0 <= j < self.permissions@.len() && perm_key(self.permissions@[j]) == key;
                    }
                },
                Some(p) => {
                    let j0 = choose|j: int| 0 <= j < i && self.permissions@[j] == p;
                    assert(pv.contains_key(perm_key(self.permissions@[j0])));
                    assert forall|key: (u128, u128)|
                        #[trigger] pv.contains_key(key) && perm_applies(nv, nv[node_id], user_id, pv[key])
                            implies level_rank(pv[key].access_level) <= level_rank(p.access_level) by {
                        let j = choose|j: int|
                            0 <= j < self.permissions@.len() && perm_key(self.permissions@[j]) == key;
                    }
                },
            }
        }
        Ok(best)
    }

    /// The root folder of the user `user_id`: the node stored under the
    /// user's identifier if there is one, else a new root folder, which is
    /// stored, with the clock's readings as its timestamps.
    pub fn get_or_create_root(&mut self, user_id: u128) -> (r: Result<Node, AppError>)
        requires
            old(self).wf(),
        ensures
            final(self).wf(),
            final(self).perms_view() == old(self).perms_view(),
            old(self).nodes_view().contains_key(user_id) ==> {
                &&& final(self).nodes_view() == old(self).nodes_view()
                &&& r == Ok::<Node, AppError>(old(self).nodes_view()[user_id])
            },
            !old(self).nodes_view().contains_key(user_id) ==> (r matches Ok(n) && is_root_node_of(
                n,
                user_id,
            ) && final(self).nodes_view() == old(self).nodes_view().insert(user_id, n)),
            r matches Ok(n) && root_outcome(old(self).nodes_view(), user_id, n) == (
                final(self).nodes_view(),
                n,
            ),
    {
        match self.nodes.get(&user_id) {
            Some(n) => Ok(n.clone()),
            None => {
                let created_at = now();
                let updated_at = now();
                let node = root_node(user_id, created_at, updated_at);
                let ret = node.clone();
                self.store(node);
                Ok(ret)
            },
        }
    }
}

} // verus!
