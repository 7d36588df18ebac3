//! Dotted paths. A node's path is its parent's path, a dot, and the simple
//! text of its own identifier; a root's path is the simple text of its
//! owner's identifier alone. Being below a node is being prefixed by its path
//! and a dot.

use vstd::prelude::*;
use vstd::string::*;
use crate::ids::{simple_string, simple_text, lemma_simple_text_has_no_dot};
use crate::models::Node;

verus! {

/// The number of dots in a text.
pub open spec fn dot_count(s: Seq<char>) -> nat
    decreases s.len(),
{
    if s.len() == 0 {
        0
    } else {
        dot_count(s.drop_last()) + if s.last() == '.' { 1nat } else { 0nat }
    }
}

/// The number of pieces that splitting a text at its dots gives.
pub open spec fn segment_count(s: Seq<char>) -> nat {
    dot_count(s) + 1
}

/// Whether `s` begins with `prefix`.
pub open spec fn starts_with(s: Seq<char>, prefix: Seq<char>) -> bool {
    prefix.len() <= s.len() && s.subrange(0, prefix.len() as int) == prefix
}

/// Whether the path `p` lies strictly below the path `ancestor`: it begins
/// with `ancestor` followed by a dot.
pub open spec fn is_below(ancestor: Seq<char>, p: Seq<char>) -> bool {
    starts_with(p, ancestor + seq!['.'])
}

/// Whether the path `p` lies exactly one level below the path `parent`.
pub open spec fn is_direct_child_path(parent: Seq<char>, p: Seq<char>) -> bool {
    is_below(parent, p) && segment_count(p) == segment_count(parent) + 1
}

/// The path that a node created with identifier `id` inside `parent` gets.
pub open spec fn child_path_text(parent: Seq<char>, id: u128) -> Seq<char> {
    parent + seq!['.'] + simple_text(id)
}

/// The path of the root folder of the user `user_id`.
pub open spec fn root_path_text(user_id: u128) -> Seq<char> {
    simple_text(user_id)
}

/// Where a request puts a new or moved node, before the folder is looked up:
/// the user's own root, or the folder with this identifier.
#[derive(Clone, Copy, Debug, PartialEq, Eq, Structural)]
pub enum ParentTarget {
    Root,
    Folder(u128),
}

/// Where a new or moved node goes: the user's own root, or a folder.
pub enum TargetParent {
    Root,
    Node(Node),
}

/// The path of the folder that a target designates for the user `user_id`.
pub open spec fn target_parent_path(parent: TargetParent, user_id: u128) -> Seq<char> {
    match parent {
        TargetParent::Node(p) => p.path@,
        TargetParent::Root => root_path_text(user_id),
    }
}

/// The path that `generate_path` gives.
pub open spec fn generated_path(parent: TargetParent, new_id: u128, user_id: u128) -> Seq<char> {
    child_path_text(target_parent_path(parent, user_id), new_id)
}

/// The path of a node with identifier `new_id` placed in `parent` by the user
/// `user_id`: the parent's path (for the root, the simple text of the user's
/// identifier), a dot, and the simple text of `new_id`.
pub fn generate_path(parent: &TargetParent, new_id: u128, user_id: u128) -> (r: String)
    ensures
        r@ == generated_path(*parent, new_id, user_id),
{
    let id_str = simple_string(new_id);
    let mut r = match parent {
        TargetParent::Node(p) => p.path.clone(),
        TargetParent::Root => simple_string(user_id),
    };
    let dot = ".";
    proof {
        reveal_strlit(".");
    }
    r.append(dot);
    r.append(id_str.as_str());
    r
}

/// The number of dots in `s`.
pub fn count_dots(s: &str) -> (r: usize)
    ensures
        r == dot_count(s@),
{
    let n = s.unicode_len();
    let mut i: usize = 0;
    let mut c: usize = 0;
    while i < n
        invariant
            n == s@.len(),
            i <= n,
            c <= i,
            c == dot_count(s@.subrange(0, i as int)),
        decreases n - i,
    {
        let ch = s.get_char(i);
        assert(s@.subrange(0, i + 1).drop_last() =~= s@.subrange(0, i as int));
        if ch == '.' {
            c = c + 1;
        }
        i = i + 1;
    }
    assert(s@.subrange(0, n as int) =~= s@);
    c
}

/// Whether the path `p` lies strictly below the path `ancestor`.
pub fn path_is_below(ancestor: &str, p: &str) -> (r: bool)
    ensures
        r == is_below(ancestor@, p@),
{
    let n = p.unicode_len();
    let m = ancestor.unicode_len();
    let ghost pre = ancestor@ + seq!['.'];
    if m >= n {
        return false;
    }
    let mut i: usize = 0;
    while i < m
        invariant
            n == p@.len(),
            m == ancestor@.len(),
            m < n,
            i <= m,
            pre == ancestor@ + seq!['.'],
            forall|j: int| 0 <= j < i ==> p@[j] == ancestor@[j],
        decreases m - i,
    {
        if p.get_char(i) != ancestor.get_char(i) {
            assert(p@.subrange(0, pre.len() as int)[i as int] != pre[i as int]);
            return false;
        }
        i = i + 1;
    }
    let last = p.get_char(m);
    if last == '.' {
        assert(p@.subrange(0, pre.len() as int) =~= pre);
        true
    } else {
        assert(p@.subrange(0, pre.len() as int)[m as int] != pre[m as int]);
        false
    }
}

/// The number of dots in a concatenation is the sum of those in the parts.
pub proof fn lemma_dot_count_concat(a: Seq<char>, b: Seq<char>)
    ensures
        dot_count(a + b) == dot_count(a) + dot_count(b),
    decreases b.len(),
{
    if b.len() == 0 {
        assert(a + b =~= a);
    } else {
        lemma_dot_count_concat(a, b.drop_last());
        assert((a + b).drop_last() =~= a + b.drop_last());
    }
}

/// A text without dots has a dot count of zero.
pub proof fn lemma_dot_count_zero(s: Seq<char>)
    requires
        forall|i: int| 0 <= i < s.len() ==> s[i] != '.',
    ensures
        dot_count(s) == 0,
    decreases s.len(),
{
    if s.len() > 0 {
        lemma_dot_count_zero(s.drop_last());
    }
}

/// A path made for a node inside a parent lies exactly one level below the
/// parent's path, whatever the parent's path is.
pub proof fn law_child_path_is_direct_child(parent: Seq<char>, id: u128)
    ensures
        is_direct_child_path(parent, child_path_text(parent, id)),
{
    let c = child_path_text(parent, id);
    lemma_simple_text_has_no_dot(id);
    lemma_dot_count_zero(simple_text(id));
    lemma_dot_count_concat(parent + seq!['.'], simple_text(id));
    lemma_dot_count_concat(parent, seq!['.']);
    assert(dot_count(seq!['.']) == 1) by {
        assert(seq!['.'].drop_last() =~= Seq::<char>::empty());
        reveal_with_fuel(dot_count, 2);
    }
    assert(c.subrange(0, (parent.len() + 1) as int) =~= parent + seq!['.']);
}

/// `generate_path` places the new node exactly one level below the folder the
/// target designates.
pub proof fn law_generated_path_is_direct_child(parent: TargetParent, new_id: u128, user_id: u128)
    ensures
        is_direct_child_path(
            target_parent_path(parent, user_id),
            generated_path(parent, new_id, user_id),
        ),
{
    law_child_path_is_direct_child(target_parent_path(parent, user_id), new_id);
}

} // verus!
