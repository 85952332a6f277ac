//! The tree store: spaces and nodes as an adjacency list, with cascading
//! deletes and the storage-level timestamp contract.
//!
//! The shape invariant: every node references an existing space; every
//! non-null parent reference points to a node inserted earlier in the same
//! space, so following parent links always terminates. The store only ever
//! sets a parent to an already-existing node, never rewires one, so the
//! invariant holds by construction.

use vstd::prelude::*;
use crate::mime::str_eq;

verus! {

/// A top-level named container owning a forest of nodes.
pub struct Space {
    pub id: String,
    pub name: String,
    pub sort_order: i64,
}

/// A note or folder: one node of its space's forest.
pub struct Node {
    pub id: String,
    pub space_id: String,
    pub parent_id: Option<String>,
    pub name: String,
    pub content: Option<String>,
    pub is_open: bool,
    pub is_pinned: bool,
    pub sort_order: i64,
    pub created_at: u64,
    pub updated_at: u64,
}

/// The relational representation: one row list per table, in insertion order.
pub struct TreeStore {
    pub spaces: Vec<Space>,
    pub nodes: Vec<Node>,
}

pub open spec fn space_ids_unique(spaces: Seq<Space>) -> bool {
    forall|i: int, j: int|
        0 <= i < j < spaces.len() ==> (#[trigger] spaces[i]).id@ != (#[trigger] spaces[j]).id@
}

pub open spec fn node_ids_unique(nodes: Seq<Node>) -> bool {
    forall|i: int, j: int|
        0 <= i < j < nodes.len() ==> (#[trigger] nodes[i]).id@ != (#[trigger] nodes[j]).id@
}

pub open spec fn space_exists(spaces: Seq<Space>, sid: Seq<char>) -> bool {
    exists|i: int| 0 <= i < spaces.len() && (#[trigger] spaces[i]).id@ == sid
}

pub open spec fn node_exists(nodes: Seq<Node>, id: Seq<char>) -> bool {
    exists|i: int| 0 <= i < nodes.len() && (#[trigger] nodes[i]).id@ == id
}

/// A non-null parent reference points to an earlier node of the same space.
pub open spec fn node_parent_ok(nodes: Seq<Node>, i: int) -> bool {
    nodes[i].parent_id is Some ==> exists|j: int|
        0 <= j < i && (#[trigger] nodes[j]).id@ == (nodes[i].parent_id->Some_0)@
            && nodes[j].space_id@ == nodes[i].space_id@
}

/// A valid parent for a fresh node: absent, or an existing node of the
/// target space.
pub open spec fn parent_valid(
    nodes: Seq<Node>,
    parent: Option<Seq<char>>,
    space: Seq<char>,
) -> bool {
    parent is Some ==> exists|j: int|
        0 <= j < nodes.len() && (#[trigger] nodes[j]).id@ == parent->Some_0
            && nodes[j].space_id@ == space
}

impl TreeStore {
    /// The shape invariant of the whole store.
    pub open spec fn wf(&self) -> bool {
        &&& space_ids_unique(self.spaces@)
        &&& node_ids_unique(self.nodes@)
        &&& forall|i: int|
            0 <= i < self.nodes@.len() ==> space_exists(
                self.spaces@,
                (#[trigger] self.nodes@[i]).space_id@,
            )
        &&& forall|i: int| 0 <= i < self.nodes@.len() ==> node_parent_ok(self.nodes@, i)
    }

    /// An empty store.
    pub fn new() -> (r: TreeStore)
        ensures
            r.wf(),
            r.spaces@.len() == 0,
            r.nodes@.len() == 0,
    {
        TreeStore { spaces: Vec::new(), nodes: Vec::new() }
    }

    /// The index of the space with the given id, if any.
    fn find_space(&self, id: &str) -> (r: Option<usize>)
        ensures
            r is Some ==> (r->Some_0 as int) < self.spaces@.len()
                && self.spaces@[r->Some_0 as int].id@ == id@,
            r is None ==> forall|k: int|
                0 <= k < self.spaces@.len() ==> (#[trigger] self.spaces@[k]).id@ != id@,
    {
        let mut i: usize = 0;
        while i < self.spaces.len()
            invariant
                i <= self.spaces@.len(),
                forall|k: int| 0 <= k < i ==> (#[trigger] self.spaces@[k]).id@ != id@,
            decreases self.spaces@.len() - i,
        {
            if str_eq(self.spaces[i].id.as_str(), id) {
                return Some(i);
            }
            i += 1;
        }
        None
    }

    /// The index of the node with the given id, if any.
    fn find_node(&self, id: &str) -> (r: Option<usize>)
        ensures
            r is Some ==> (r->Some_0 as int) < self.nodes@.len()
                && self.nodes@[r->Some_0 as int].id@ == id@,
            r is None ==> forall|k: int|
                0 <= k < self.nodes@.len() ==> (#[trigger] self.nodes@[k]).id@ != id@,
    {
        let mut i: usize = 0;
        while i < self.nodes.len()
            invariant
                i <= self.nodes@.len(),
                forall|k: int| 0 <= k < i ==> (#[trigger] self.nodes@[k]).id@ != id@,
            decreases self.nodes@.len() - i,
        {
            if str_eq(self.nodes[i].id.as_str(), id) {
                return Some(i);
            }
            i += 1;
        }
        None
    }

    /// Whether a space with the given id exists.
    pub fn has_space(&self, id: &str) -> (r: bool)
        ensures
            r == space_exists(self.spaces@, id@),
    {
        let found = self.find_space(id);
        match found {
            Some(i) => {
                assert(space_exists(self.spaces@, id@));
                true
            },
            None => false,
        }
    }

    /// Whether a node with the given id exists.
    pub fn has_node(&self, id: &str) -> (r: bool)
        ensures
            r == node_exists(self.nodes@, id@),
    {
        let found = self.find_node(id);
        match found {
            Some(i) => {
                assert(node_exists(self.nodes@, id@));
                true
            },
            None => false,
        }
    }

    /// Add a space. Fails, changing nothing, exactly when the id is taken.
    pub fn add_space(&mut self, id: String, name: String, sort_order: i64) -> (r: Result<
        (),
        String,
    >)
        requires
            old(self).wf(),
        ensures
            final(self).wf(),
            r is Ok <==> !space_exists(old(self).spaces@, id@),
            r is Ok ==> final(self).spaces@ == old(self).spaces@.push(
                Space { id, name, sort_order },
            ),
            r is Err ==> final(self).spaces@ == old(self).spaces@,
            final(self).nodes@ == old(self).nodes@,
    {
        if self.has_space(id.as_str()) {
            return Err(String::from_str("space id already exists"));
        }
        let ghost pre = *self;
        self.spaces.push(Space { id, name, sort_order });
        proof {
            assert forall|i: int|
                0 <= i < self.nodes@.len() implies space_exists(
                self.spaces@,
                (#[trigger] self.nodes@[i]).space_id@,
            ) by {
                assert(space_exists(pre.spaces@, self.nodes@[i].space_id@));
                let w = choose|k: int|
                    0 <= k < pre.spaces@.len() && (#[trigger] pre.spaces@[k]).id@
                        == self.nodes@[i].space_id@;
                assert(self.spaces@[w].id@ == self.nodes@[i].space_id@);
            }
        }
        Ok(())
    }

    /// Insert a node. Fails, changing nothing, exactly when the id is taken,
    /// the space is missing, or the parent is not an existing node of that
    /// space. Absent timestamps are populated with the current time `now`.
    pub fn insert_node(
        &mut self,
        id: String,
        space_id: String,
        parent_id: Option<String>,
        name: String,
        content: Option<String>,
        is_open: bool,
        is_pinned: bool,
        sort_order: i64,
        created_at: Option<u64>,
        updated_at: Option<u64>,
        now: u64,
    ) -> (r: Result<(), String>)
        requires
            old(self).wf(),
        ensures
            final(self).wf(),
            r is Ok <==> !node_exists(old(self).nodes@, id@) && space_exists(
                old(self).spaces@,
                space_id@,
            ) && parent_valid(old(self).nodes@, parent_id.deep_view(), space_id@),
            r is Ok ==> final(self).nodes@ == old(self).nodes@.push(
                Node {
                    id,
                    space_id,
                    parent_id,
                    name,
                    content,
                    is_open,
                    is_pinned,
                    sort_order,
                    created_at: if created_at is Some {
                        created_at->Some_0
                    } else {
                        now
                    },
                    updated_at: if updated_at is Some {
                        updated_at->Some_0
                    } else {
                        now
                    },
                },
            ),
            r is Err ==> final(self).nodes@ == old(self).nodes@,
            final(self).spaces@ == old(self).spaces@,
    {
        if self.has_node(id.as_str()) {
            return Err(String::from_str("node id already exists"));
        }
        if !self.has_space(space_id.as_str()) {
            return Err(String::from_str("space does not exist"));
        }
        match &parent_id {
            Some(p) => {
                let found = self.find_node(p.as_str());
                match found {
                    Some(j) => {
                        if !str_eq(self.nodes[j].space_id.as_str(), space_id.as_str()) {
                            proof {
                                assert forall|k: int|
                                    !(0 <= k < self.nodes@.len()
                                        && (#[trigger] self.nodes@[k]).id@
                                        == parent_id.deep_view()->Some_0
                                        && self.nodes@[k].space_id@ == space_id@) by {
                                    if 0 <= k < self.nodes@.len() && self.nodes@[k].id@
                                        == self.nodes@[j as int].id@ {
                                        assert(k == j as int);
                                    }
                                }
                            }
                            return Err(String::from_str("parent is in another space"));
                        }
                    },
                    None => {
                        return Err(String::from_str("parent node does not exist"));
                    },
                }
            },
            None => {},
        }
        let ghost pre = *self;
        let ts_created: u64 = match created_at {
            Some(t) => t,
            None => now,
        };
        let ts_updated: u64 = match updated_at {
            Some(t) => t,
            None => now,
        };
        let node = Node {
            id,
            space_id,
            parent_id,
            name,
            content,
            is_open,
            is_pinned,
            sort_order,
            created_at: ts_created,
            updated_at: ts_updated,
        };
        self.nodes.push(node);
        proof {
            let n = pre.nodes@.len() as int;
            assert forall|i: int| 0 <= i < self.nodes@.len() implies node_parent_ok(
                self.nodes@,
                i,
            ) by {
                if i < n {
                    assert(node_parent_ok(pre.nodes@, i));
                    if pre.nodes@[i].parent_id is Some {
                        let w = choose|j: int|
                            0 <= j < i && (#[trigger] pre.nodes@[j]).id@ == (pre.nodes@[i].parent_id
                                ->Some_0)@ && pre.nodes@[j].space_id@ == pre.nodes@[i].space_id@;
                        assert(self.nodes@[w].id@ == (self.nodes@[i].parent_id->Some_0)@);
                    }
                } else {
                    if self.nodes@[i].parent_id is Some {
                        let w = choose|j: int|
                            0 <= j < n && (#[trigger] pre.nodes@[j]).id@ == (self.nodes@[i].parent_id
                                ->Some_0)@ && pre.nodes@[j].space_id@ == self.nodes@[i].space_id@;
                        assert(self.nodes@[w].id@ == (self.nodes@[i].parent_id->Some_0)@);
                    }
                }
            }
            assert forall|i: int|
                0 <= i < self.nodes@.len() implies space_exists(
                self.spaces@,
                (#[trigger] self.nodes@[i]).space_id@,
            ) by {
                if i < n {
                    assert(space_exists(pre.spaces@, pre.nodes@[i].space_id@));
                }
            }
        }
        Ok(())
    }

    /// Rename a node: its name is replaced and `updated_at` is refreshed to
    /// `now`; every other field, and every other row, is untouched. Fails,
    /// changing nothing, exactly when the id is unknown.
    pub fn update_node_name(&mut self, id: &str, name: String, now: u64) -> (r: Result<
        (),
        String,
    >)
        requires
            old(self).wf(),
        ensures
            final(self).wf(),
            r is Ok <==> node_exists(old(self).nodes@, id@),
            r is Ok ==> exists|i: int|
                0 <= i < old(self).nodes@.len() && (#[trigger] old(self).nodes@[i]).id@ == id@
                    && final(self).nodes@ == old(self).nodes@.update(
                    i,
                    Node { name: name, updated_at: now, ..old(self).nodes@[i] },
                ),
            r is Err ==> final(self).nodes@ == old(self).nodes@,
            final(self).spaces@ == old(self).spaces@,
    {
        let found = self.find_node(id);
        let i = match found {
            Some(i) => i,
            None => {
                return Err(String::from_str("node does not exist"));
            },
        };
        let ghost pre = *self;
        let old_node = &self.nodes[i];
        let replacement = Node {
            id: old_node.id.clone(),
            space_id: old_node.space_id.clone(),
            parent_id: clone_opt_string(&old_node.parent_id),
            name,
            content: clone_opt_string(&old_node.content),
            is_open: old_node.is_open,
            is_pinned: old_node.is_pinned,
            sort_order: old_node.sort_order,
            created_at: old_node.created_at,
            updated_at: now,
        };
        self.nodes.set(i, replacement);
        proof {
            lemma_update_field_preserves_wf(pre, *self, i as int);
        }
        Ok(())
    }

    /// Edit a node's content: the content is replaced and `updated_at` is
    /// refreshed to `now`; every other field, and every other row, is
    /// untouched. Fails, changing nothing, exactly when the id is unknown.
    pub fn update_node_content(&mut self, id: &str, content: Option<String>, now: u64) -> (r:
        Result<(), String>)
        requires
            old(self).wf(),
        ensures
            final(self).wf(),
            r is Ok <==> node_exists(old(self).nodes@, id@),
            r is Ok ==> exists|i: int|
                0 <= i < old(self).nodes@.len() && (#[trigger] old(self).nodes@[i]).id@ == id@
                    && final(self).nodes@ == old(self).nodes@.update(
                    i,
                    Node { content: content, updated_at: now, ..old(self).nodes@[i] },
                ),
            r is Err ==> final(self).nodes@ == old(self).nodes@,
            final(self).spaces@ == old(self).spaces@,
    {
        let found = self.find_node(id);
        let i = match found {
            Some(i) => i,
            None => {
                return Err(String::from_str("node does not exist"));
            },
        };
        let ghost pre = *self;
        let old_node = &self.nodes[i];
        let replacement = Node {
            id: old_node.id.clone(),
            space_id: old_node.space_id.clone(),
            parent_id: clone_opt_string(&old_node.parent_id),
            name: old_node.name.clone(),
            content,
            is_open: old_node.is_open,
            is_pinned: old_node.is_pinned,
            sort_order: old_node.sort_order,
            created_at: old_node.created_at,
            updated_at: now,
        };
        self.nodes.set(i, replacement);
        proof {
            lemma_update_field_preserves_wf(pre, *self, i as int);
        }
        Ok(())
    }

    /// Reorder a node: only `sort_order` changes — in particular
    /// `updated_at` is NOT refreshed. Fails, changing nothing, exactly when
    /// the id is unknown.
    pub fn update_node_sort_order(&mut self, id: &str, sort_order: i64) -> (r: Result<(), String>)
        requires
            old(self).wf(),
        ensures
            final(self).wf(),
            r is Ok <==> node_exists(old(self).nodes@, id@),
            r is Ok ==> exists|i: int|
                0 <= i < old(self).nodes@.len() && (#[trigger] old(self).nodes@[i]).id@ == id@
                    && final(self).nodes@ == old(self).nodes@.update(
                    i,
                    Node { sort_order: sort_order, ..old(self).nodes@[i] },
                ),
            r is Err ==> final(self).nodes@ == old(self).nodes@,
            final(self).spaces@ == old(self).spaces@,
    {
        let found = self.find_node(id);
        let i = match found {
            Some(i) => i,
            None => {
                return Err(String::from_str("node does not exist"));
            },
        };
        let ghost pre = *self;
        let old_node = &self.nodes[i];
        let replacement = Node {
            id: old_node.id.clone(),
            space_id: old_node.space_id.clone(),
            parent_id: clone_opt_string(&old_node.parent_id),
            name: old_node.name.clone(),
            content: clone_opt_string(&old_node.content),
            is_open: old_node.is_open,
            is_pinned: old_node.is_pinned,
            sort_order,
            created_at: old_node.created_at,
            updated_at: old_node.updated_at,
        };
        self.nodes.set(i, replacement);
        proof {
            lemma_update_field_preserves_wf(pre, *self, i as int);
        }
        Ok(())
    }
}

/// Clone an optional owned string.
fn clone_opt_string(s: &Option<String>) -> (r: Option<String>)
    ensures
        r == *s,
{
    match s {
        Some(p) => Some(p.clone()),
        None => None,
    }
}

/// Replacing one node with a node carrying the same id, space and parent
/// preserves the shape invariant.
proof fn lemma_update_field_preserves_wf(pre: TreeStore, post: TreeStore, i: int)
    requires
        pre.wf(),
        post.spaces@ == pre.spaces@,
        post.nodes@.len() == pre.nodes@.len(),
        0 <= i < pre.nodes@.len(),
        forall|k: int| 0 <= k < pre.nodes@.len() && k != i ==> post.nodes@[k] == pre.nodes@[k],
        post.nodes@[i].id@ == pre.nodes@[i].id@,
        post.nodes@[i].space_id@ == pre.nodes@[i].space_id@,
        post.nodes@[i].parent_id == pre.nodes@[i].parent_id,
    ensures
        post.wf(),
{
    assert forall|p: int, q: int|
        0 <= p < q < post.nodes@.len() implies (#[trigger] post.nodes@[p]).id@
        != (#[trigger] post.nodes@[q]).id@ by {
        assert(pre.nodes@[p].id@ != pre.nodes@[q].id@);
    }
    assert forall|k: int| 0 <= k < post.nodes@.len() implies node_parent_ok(post.nodes@, k) by {
        assert(node_parent_ok(pre.nodes@, k));
        if post.nodes@[k].parent_id is Some {
            let w = choose|j: int|
                0 <= j < k && (#[trigger] pre.nodes@[j]).id@ == (pre.nodes@[k].parent_id->Some_0)@
                    && pre.nodes@[j].space_id@ == pre.nodes@[k].space_id@;
            assert(post.nodes@[w].id@ == (post.nodes@[k].parent_id->Some_0)@);
            assert(post.nodes@[w].space_id@ == post.nodes@[k].space_id@);
        }
    }
    assert forall|k: int|
        0 <= k < post.nodes@.len() implies space_exists(
        post.spaces@,
        (#[trigger] post.nodes@[k]).space_id@,
    ) by {
        assert(space_exists(pre.spaces@, pre.nodes@[k].space_id@));
    }
}

/// Timestamp contract: a rename or content edit under a clock later than the
/// node's last update strictly increases `updated_at` and never touches
/// `created_at`; a reorder never changes `updated_at`.
pub proof fn lemma_timestamp_contract(nodes: Seq<Node>, i: int, edited: Node, resorted: Node, now: u64)
    requires
        0 <= i < nodes.len(),
        now > nodes[i].updated_at,
        edited == (Node { name: edited.name, content: edited.content, updated_at: now, ..nodes[i] }),
        resorted == (Node { sort_order: resorted.sort_order, ..nodes[i] }),
    ensures
        edited.updated_at > nodes[i].updated_at,
        edited.created_at == nodes[i].created_at,
        resorted.updated_at == nodes[i].updated_at,
        resorted.created_at == nodes[i].created_at,
{
}


/// Clone a node, field by field.
fn clone_node(n: &Node) -> (r: Node)
    ensures
        r == *n,
{
    Node {
        id: n.id.clone(),
        space_id: n.space_id.clone(),
        parent_id: clone_opt_string(&n.parent_id),
        name: n.name.clone(),
        content: clone_opt_string(&n.content),
        is_open: n.is_open,
        is_pinned: n.is_pinned,
        sort_order: n.sort_order,
        created_at: n.created_at,
        updated_at: n.updated_at,
    }
}

/// Two positions holding the same node id are the same position.
proof fn lemma_unique_node_index(nodes: Seq<Node>, a: int, b: int)
    requires
        node_ids_unique(nodes),
        0 <= a < nodes.len(),
        0 <= b < nodes.len(),
        nodes[a].id@ == nodes[b].id@,
    ensures
        a == b,
{
    if a < b {
        assert(nodes[a].id@ != nodes[b].id@);
    } else if b < a {
        assert(nodes[b].id@ != nodes[a].id@);
    }
}

/// The subsequence of the first `n` elements whose keep flag is set, in order.
pub open spec fn spec_kept<A>(s: Seq<A>, keep: Seq<bool>, n: int) -> Seq<A>
    decreases n,
{
    if n <= 0 {
        Seq::empty()
    } else {
        let pre = spec_kept(s, keep, n - 1);
        if keep[n - 1] {
            pre.push(s[n - 1])
        } else {
            pre
        }
    }
}

/// The element `x` stands at a kept position among the first `n`.
pub open spec fn kept_elem_ok<A>(s: Seq<A>, keep: Seq<bool>, n: int, x: A) -> bool {
    exists|k: int| 0 <= k < n && keep[k] && #[trigger] s[k] == x
}

/// Every kept element is an original element with its flag set, and every
/// element with its flag set is kept.
proof fn lemma_kept_membership<A>(s: Seq<A>, keep: Seq<bool>, n: int)
    requires
        keep.len() == s.len(),
        0 <= n <= s.len(),
    ensures
        forall|p: int|
            0 <= p < spec_kept(s, keep, n).len() ==> kept_elem_ok(
                s,
                keep,
                n,
                #[trigger] spec_kept(s, keep, n)[p],
            ),
        forall|k: int| 0 <= k < n && keep[k] ==> spec_kept(s, keep, n).contains(#[trigger] s[k]),
        spec_kept(s, keep, n).len() <= n,
    decreases n,
{
    if n > 0 {
        lemma_kept_membership(s, keep, n - 1);
        let pre = spec_kept(s, keep, n - 1);
        let cur = spec_kept(s, keep, n);
        assert forall|p: int| 0 <= p < cur.len() implies kept_elem_ok(
            s,
            keep,
            n,
            #[trigger] cur[p],
        ) by {
            if keep[n - 1] && p == cur.len() - 1 {
                assert(s[n - 1] == cur[p]);
            } else {
                assert(cur[p] == pre[p]);
                assert(kept_elem_ok(s, keep, n - 1, pre[p]));
                let k = choose|k: int| 0 <= k < n - 1 && keep[k] && #[trigger] s[k] == pre[p];
                assert(s[k] == cur[p]);
            }
        }
        assert forall|k: int| 0 <= k < n && keep[k] implies cur.contains(#[trigger] s[k]) by {
            if k < n - 1 {
                assert(pre.contains(s[k]));
                let q = choose|q: int| 0 <= q < pre.len() && pre[q] == s[k];
                assert(cur[q] == s[k]);
            } else {
                assert(cur[cur.len() - 1] == s[n - 1]);
            }
        }
    }
}

/// Keeping a flagged subsequence of the nodes preserves the shape invariant,
/// provided every kept node's space survives and the parent of a kept node
/// is itself kept.
proof fn lemma_kept_nodes_wf(spaces: Seq<Space>, nodes: Seq<Node>, keep: Seq<bool>, n: int)
    requires
        keep.len() == nodes.len(),
        0 <= n <= nodes.len(),
        node_ids_unique(nodes),
        forall|i: int| 0 <= i < nodes.len() ==> node_parent_ok(nodes, i),
        forall|i: int|
            0 <= i < nodes.len() && keep[i] ==> space_exists(
                spaces,
                (#[trigger] nodes[i]).space_id@,
            ),
        forall|i: int, j: int|
            0 <= i < nodes.len() && keep[i] && (#[trigger] nodes[i]).parent_id is Some && 0 <= j < i
                && (#[trigger] nodes[j]).id@ == (nodes[i].parent_id->Some_0)@ ==> keep[j],
    ensures
        node_ids_unique(spec_kept(nodes, keep, n)),
        forall|p: int|
            0 <= p < spec_kept(nodes, keep, n).len() ==> node_parent_ok(spec_kept(nodes, keep, n), p),
        forall|p: int|
            0 <= p < spec_kept(nodes, keep, n).len() ==> space_exists(
                spaces,
                (#[trigger] spec_kept(nodes, keep, n)[p]).space_id@,
            ),
    decreases n,
{
    if n > 0 {
        lemma_kept_nodes_wf(spaces, nodes, keep, n - 1);
        lemma_kept_membership(nodes, keep, n - 1);
        let pre = spec_kept(nodes, keep, n - 1);
        let cur = spec_kept(nodes, keep, n);
        if keep[n - 1] {
            assert(cur == pre.push(nodes[n - 1]));
            assert forall|p: int, q: int|
                0 <= p < q < cur.len() implies (#[trigger] cur[p]).id@
                != (#[trigger] cur[q]).id@ by {
                if q < pre.len() {
                    assert(pre[p].id@ != pre[q].id@);
                } else {
                    assert(kept_elem_ok(nodes, keep, n - 1, pre[p]));
                    let k = choose|k: int|
                        0 <= k < n - 1 && keep[k] && #[trigger] nodes[k] == pre[p];
                    assert(nodes[k].id@ != nodes[n - 1].id@);
                }
            }
            assert forall|p: int| 0 <= p < cur.len() implies node_parent_ok(cur, p) by {
                if p < pre.len() {
                    assert(node_parent_ok(pre, p));
                    if cur[p].parent_id is Some {
                        let w = choose|j: int|
                            0 <= j < p && (#[trigger] pre[j]).id@ == (pre[p].parent_id->Some_0)@
                                && pre[j].space_id@ == pre[p].space_id@;
                        assert((#[trigger] cur[w]).id@ == (cur[p].parent_id->Some_0)@
                            && cur[w].space_id@ == cur[p].space_id@);
                    }
                } else {
                    assert(cur[p] == nodes[n - 1]);
                    if nodes[n - 1].parent_id is Some {
                        assert(node_parent_ok(nodes, n - 1));
                        let j = choose|j: int|
                            0 <= j < n - 1 && (#[trigger] nodes[j]).id@ == (nodes[n - 1].parent_id
                                ->Some_0)@ && nodes[j].space_id@ == nodes[n - 1].space_id@;
                        assert(keep[j]);
                        assert(pre.contains(nodes[j]));
                        let q = choose|q: int| 0 <= q < pre.len() && pre[q] == nodes[j];
                        assert((#[trigger] cur[q]).id@ == (cur[p].parent_id->Some_0)@
                            && cur[q].space_id@ == cur[p].space_id@ && 0 <= q < p);
                    }
                }
            }
            assert forall|p: int|
                0 <= p < cur.len() implies space_exists(
                spaces,
                (#[trigger] cur[p]).space_id@,
            ) by {
                if p < pre.len() {
                    assert(space_exists(spaces, pre[p].space_id@));
                } else {
                    assert(cur[p] == nodes[n - 1]);
                }
            }
        } else {
            assert(cur == pre);
        }
    }
}

/// Keeping a flagged subsequence of the spaces keeps their ids unique.
proof fn lemma_kept_spaces_unique(spaces: Seq<Space>, keep: Seq<bool>, n: int)
    requires
        keep.len() == spaces.len(),
        0 <= n <= spaces.len(),
        space_ids_unique(spaces),
    ensures
        space_ids_unique(spec_kept(spaces, keep, n)),
    decreases n,
{
    if n > 0 {
        lemma_kept_spaces_unique(spaces, keep, n - 1);
        lemma_kept_membership(spaces, keep, n - 1);
        let pre = spec_kept(spaces, keep, n - 1);
        let cur = spec_kept(spaces, keep, n);
        if keep[n - 1] {
            assert forall|p: int, q: int|
                0 <= p < q < cur.len() implies (#[trigger] cur[p]).id@
                != (#[trigger] cur[q]).id@ by {
                if q < pre.len() {
                    assert(pre[p].id@ != pre[q].id@);
                } else {
                    assert(kept_elem_ok(spaces, keep, n - 1, pre[p]));
                    let k = choose|k: int|
                        0 <= k < n - 1 && keep[k] && #[trigger] spaces[k] == pre[p];
                    assert(spaces[k].id@ != spaces[n - 1].id@);
                }
            }
        }
    }
}

/// The position a non-null parent reference resolves to.
pub open spec fn parent_index_of(nodes: Seq<Node>, i: int) -> int {
    choose|j: int| 0 <= j < i && (#[trigger] nodes[j]).id@ == (nodes[i].parent_id->Some_0)@
}

/// Whether the node at position `i` belongs to the subtree rooted at the
/// node whose id is `root`: it is that node, or its parent chain reaches it.
pub open spec fn in_subtree(nodes: Seq<Node>, root: Seq<char>, i: int) -> bool
    decreases i,
{
    if 0 <= i < nodes.len() {
        if nodes[i].id@ == root {
            true
        } else if nodes[i].parent_id is Some {
            let j = parent_index_of(nodes, i);
            if 0 <= j < i {
                in_subtree(nodes, root, j)
            } else {
                false
            }
        } else {
            false
        }
    } else {
        false
    }
}

/// The keep flags of a subtree deletion: a node survives exactly when it is
/// outside the subtree.
pub open spec fn spec_subtree_keep(nodes: Seq<Node>, root: Seq<char>) -> Seq<bool> {
    Seq::new(nodes.len(), |k: int| !in_subtree(nodes, root, k))
}

/// The keep flags of a space deletion: a node survives exactly when it
/// belongs to another space.
pub open spec fn spec_space_keep(nodes: Seq<Node>, sid: Seq<char>) -> Seq<bool> {
    Seq::new(nodes.len(), |k: int| nodes[k].space_id@ != sid)
}

/// The keep flags of the space rows themselves under a space deletion.
pub open spec fn spec_space_row_keep(spaces: Seq<Space>, sid: Seq<char>) -> Seq<bool> {
    Seq::new(spaces.len(), |k: int| spaces[k].id@ != sid)
}

/// The deleted node is in its own subtree, and the subtree is closed under
/// the parent relation: a child of a subtree node is in the subtree.
pub proof fn lemma_subtree_closure(nodes: Seq<Node>, root: Seq<char>, i: int, j: int)
    requires
        node_ids_unique(nodes),
        0 <= i < nodes.len(),
    ensures
        nodes[i].id@ == root ==> in_subtree(nodes, root, i),
        (nodes[i].parent_id is Some && 0 <= j < i && nodes[j].id@ == (nodes[i].parent_id
            ->Some_0)@ && in_subtree(nodes, root, j)) ==> in_subtree(nodes, root, i),
{
    if nodes[i].parent_id is Some && 0 <= j < i && nodes[j].id@ == (nodes[i].parent_id->Some_0)@
        && in_subtree(nodes, root, j) {
        let pj = parent_index_of(nodes, i);
        assert(0 <= pj < i && nodes[pj].id@ == (nodes[i].parent_id->Some_0)@);
        lemma_unique_node_index(nodes, pj, j);
    }
}


/// Clone a space, field by field.
fn clone_space(sp: &Space) -> (r: Space)
    ensures
        r == *sp,
{
    Space { id: sp.id.clone(), name: sp.name.clone(), sort_order: sp.sort_order }
}

/// Compute which nodes lie in the subtree rooted at the node with the given
/// id: one forward pass suffices, since a parent always stands before its
/// children.
fn compute_subtree_marks(nodes: &Vec<Node>, node_id: &str) -> (marks: Vec<bool>)
    requires
        node_ids_unique(nodes@),
        forall|i: int| 0 <= i < nodes@.len() ==> node_parent_ok(nodes@, i),
    ensures
        marks@.len() == nodes@.len(),
        forall|k: int| 0 <= k < nodes@.len() ==> marks@[k] == in_subtree(nodes@, node_id@, k),
{
    let mut marks: Vec<bool> = Vec::new();
    let mut i: usize = 0;
    while i < nodes.len()
        invariant
            i == marks@.len(),
            i <= nodes@.len(),
            node_ids_unique(nodes@),
            forall|t: int| 0 <= t < nodes@.len() ==> node_parent_ok(nodes@, t),
            forall|k: int| 0 <= k < i ==> marks@[k] == in_subtree(nodes@, node_id@, k),
        decreases nodes@.len() - i,
    {
        let ghost ns = nodes@;
        let ghost root = node_id@;
        let ghost ii = i as int;
        let mut m = str_eq(nodes[i].id.as_str(), node_id);
        if !m {
            match &nodes[i].parent_id {
                Some(p) => {
                    let mut pm = false;
                    let mut j: usize = 0;
                    while j < i
                        invariant
                            j <= i,
                            i < ns.len(),
                            i == marks@.len(),
                            ns == nodes@,
                            root == node_id@,
                            p@ == (ns[i as int].parent_id->Some_0)@,
                            ns[i as int].parent_id is Some,
                            forall|k: int| 0 <= k < i ==> marks@[k] == in_subtree(ns, root, k),
                            pm == exists|k: int|
                                0 <= k < j && marks@[k] && (#[trigger] ns[k]).id@ == p@,
                        decreases i - j,
                    {
                        if marks[j] && str_eq(nodes[j].id.as_str(), p.as_str()) {
                            pm = true;
                            assert(marks@[j as int] && ns[j as int].id@ == p@);
                        }
                        j += 1;
                    }
                    proof {
                        assert(node_parent_ok(ns, ii));
                        let w = choose|j2: int|
                            0 <= j2 < ii && (#[trigger] ns[j2]).id@ == (ns[ii].parent_id->Some_0)@
                                && ns[j2].space_id@ == ns[ii].space_id@;
                        let pj = parent_index_of(ns, ii);
                        assert(0 <= pj < ii && ns[pj].id@ == (ns[ii].parent_id->Some_0)@);
                        if pm {
                            let k = choose|k: int|
                                0 <= k < ii && marks@[k] && (#[trigger] ns[k]).id@ == p@;
                            lemma_unique_node_index(ns, k, pj);
                            assert(in_subtree(ns, root, pj));
                            assert(in_subtree(ns, root, ii));
                        } else {
                            assert(!(marks@[pj] && ns[pj].id@ == p@));
                            assert(!in_subtree(ns, root, pj));
                            assert(!in_subtree(ns, root, ii));
                        }
                    }
                    m = pm;
                },
                None => {
                    proof {
                        assert(!in_subtree(ns, root, ii));
                    }
                },
            }
        }
        marks.push(m);
        i += 1;
    }
    marks
}

impl TreeStore {
    /// Delete a node and, through the parent relation, its entire subtree;
    /// unrelated siblings and ancestors are untouched. Deleting an unknown
    /// id changes nothing.
    pub fn delete_node(&mut self, node_id: &str) -> (r: bool)
        requires
            old(self).wf(),
        ensures
            final(self).wf(),
            final(self).spaces@ == old(self).spaces@,
            final(self).nodes@ == spec_kept(
                old(self).nodes@,
                spec_subtree_keep(old(self).nodes@, node_id@),
                old(self).nodes@.len() as int,
            ),
            r == node_exists(old(self).nodes@, node_id@),
    {
        let existed = self.has_node(node_id);
        let marks = compute_subtree_marks(&self.nodes, node_id);
        let ghost ns = self.nodes@;
        let ghost root = node_id@;
        let ghost keep = spec_subtree_keep(ns, root);
        let mut kept: Vec<Node> = Vec::new();
        let mut i: usize = 0;
        while i < self.nodes.len()
            invariant
                i <= ns.len(),
                self.nodes@ == ns,
                self.spaces@ == old(self).spaces@,
                marks@.len() == ns.len(),
                root == node_id@,
                forall|k: int| 0 <= k < ns.len() ==> marks@[k] == in_subtree(ns, root, k),
                keep == spec_subtree_keep(ns, root),
                kept@ == spec_kept(ns, keep, i as int),
            decreases ns.len() - i,
        {
            if !marks[i] {
                let cl = clone_node(&self.nodes[i]);
                kept.push(cl);
            }
            i += 1;
            proof {
                assert(keep[i - 1] == !marks@[i - 1]);
            }
        }
        self.nodes = kept;
        proof {
            let n = ns.len() as int;
            assert forall|a: int, b: int|
                0 <= a < ns.len() && keep[a] && (#[trigger] ns[a]).parent_id is Some && 0 <= b < a
                    && (#[trigger] ns[b]).id@ == (ns[a].parent_id->Some_0)@ implies keep[b] by {
                if in_subtree(ns, root, b) {
                    lemma_subtree_closure(ns, root, a, b);
                }
            }
            lemma_kept_nodes_wf(self.spaces@, ns, keep, n);
        }
        existed
    }

    /// Delete a space and, through the cascade, every node belonging to it;
    /// other spaces and their nodes are untouched. Deleting an unknown id
    /// changes nothing.
    pub fn delete_space(&mut self, space_id: &str) -> (r: bool)
        requires
            old(self).wf(),
        ensures
            final(self).wf(),
            final(self).spaces@ == spec_kept(
                old(self).spaces@,
                spec_space_row_keep(old(self).spaces@, space_id@),
                old(self).spaces@.len() as int,
            ),
            final(self).nodes@ == spec_kept(
                old(self).nodes@,
                spec_space_keep(old(self).nodes@, space_id@),
                old(self).nodes@.len() as int,
            ),
            r == space_exists(old(self).spaces@, space_id@),
    {
        let existed = self.has_space(space_id);
        let ghost ss = self.spaces@;
        let ghost ns = self.nodes@;
        let ghost sid = space_id@;
        let ghost sk = spec_space_row_keep(ss, sid);
        let ghost nk = spec_space_keep(ns, sid);
        let mut kept_spaces: Vec<Space> = Vec::new();
        let mut i: usize = 0;
        while i < self.spaces.len()
            invariant
                i <= ss.len(),
                self.spaces@ == ss,
                self.nodes@ == ns,
                sid == space_id@,
                sk == spec_space_row_keep(ss, sid),
                kept_spaces@ == spec_kept(ss, sk, i as int),
            decreases ss.len() - i,
        {
            if !str_eq(self.spaces[i].id.as_str(), space_id) {
                kept_spaces.push(clone_space(&self.spaces[i]));
            }
            i += 1;
            proof {
                assert(sk[i - 1] == (ss[i - 1].id@ != sid));
            }
        }
        let mut kept_nodes: Vec<Node> = Vec::new();
        let mut j: usize = 0;
        while j < self.nodes.len()
            invariant
                j <= ns.len(),
                self.nodes@ == ns,
                sid == space_id@,
                nk == spec_space_keep(ns, sid),
                kept_nodes@ == spec_kept(ns, nk, j as int),
            decreases ns.len() - j,
        {
            if !str_eq(self.nodes[j].space_id.as_str(), space_id) {
                kept_nodes.push(clone_node(&self.nodes[j]));
            }
            j += 1;
            proof {
                assert(nk[j - 1] == (ns[j - 1].space_id@ != sid));
            }
        }
        self.spaces = kept_spaces;
        self.nodes = kept_nodes;
        proof {
            lemma_kept_spaces_unique(ss, sk, ss.len() as int);
            lemma_kept_membership(ss, sk, ss.len() as int);
            assert forall|a: int|
                0 <= a < ns.len() && nk[a] implies space_exists(
                self.spaces@,
                (#[trigger] ns[a]).space_id@,
            ) by {
                assert(space_exists(ss, ns[a].space_id@));
                let w = choose|w: int| 0 <= w < ss.len() && (#[trigger] ss[w]).id@ == ns[a].space_id@;
                assert(sk[w]);
                assert(self.spaces@.contains(ss[w]));
                let q = choose|q: int| 0 <= q < self.spaces@.len() && self.spaces@[q] == ss[w];
                assert(self.spaces@[q].id@ == ns[a].space_id@);
            }
            assert forall|a: int, b: int|
                0 <= a < ns.len() && nk[a] && (#[trigger] ns[a]).parent_id is Some && 0 <= b < a
                    && (#[trigger] ns[b]).id@ == (ns[a].parent_id->Some_0)@ implies nk[b] by {
                assert(node_parent_ok(ns, a));
                let j0 = choose|j0: int|
                    0 <= j0 < a && (#[trigger] ns[j0]).id@ == (ns[a].parent_id->Some_0)@
                        && ns[j0].space_id@ == ns[a].space_id@;
                lemma_unique_node_index(ns, b, j0);
            }
            lemma_kept_nodes_wf(self.spaces@, ns, nk, ns.len() as int);
        }
        existed
    }
}

/// Cascade invariant, space side: deleting a space removes exactly its
/// nodes — every surviving node belongs to another space, and every node of
/// another space survives.
pub proof fn lemma_space_cascade(nodes: Seq<Node>, sid: Seq<char>)
    ensures
        forall|p: int|
            0 <= p < spec_kept(nodes, spec_space_keep(nodes, sid), nodes.len() as int).len()
                ==> (#[trigger] spec_kept(nodes, spec_space_keep(nodes, sid), nodes.len() as int)[p]).space_id@
                != sid,
        forall|k: int|
            0 <= k < nodes.len() && (#[trigger] nodes[k]).space_id@ != sid ==> spec_kept(
                nodes,
                spec_space_keep(nodes, sid),
                nodes.len() as int,
            ).contains(nodes[k]),
{
    let keep = spec_space_keep(nodes, sid);
    let n = nodes.len() as int;
    lemma_kept_membership(nodes, keep, n);
    let kept = spec_kept(nodes, keep, n);
    assert forall|p: int| 0 <= p < kept.len() implies (#[trigger] kept[p]).space_id@ != sid by {
        assert(kept_elem_ok(nodes, keep, n, kept[p]));
        let k = choose|k: int| 0 <= k < n && keep[k] && (#[trigger] nodes[k]) == kept[p];
        assert(nodes[k].space_id@ != sid);
    }
}

/// Cascade invariant, node side: the deleted node's subtree contains the
/// node itself and is closed under the parent relation; deleting it keeps
/// exactly the nodes outside the subtree.
pub proof fn lemma_node_cascade(nodes: Seq<Node>, root: Seq<char>)
    requires
        node_ids_unique(nodes),
    ensures
        forall|k: int|
            0 <= k < nodes.len() && (#[trigger] nodes[k]).id@ == root ==> in_subtree(
                nodes,
                root,
                k,
            ),
        forall|i: int, j: int|
            (0 <= i < nodes.len() && (#[trigger] nodes[i]).parent_id is Some && 0 <= j < i
                && (#[trigger] nodes[j]).id@ == (nodes[i].parent_id->Some_0)@ && in_subtree(
                nodes,
                root,
                j,
            )) ==> in_subtree(nodes, root, i),
        forall|k: int|
            0 <= k < nodes.len() && !in_subtree(nodes, root, k) ==> spec_kept(
                nodes,
                spec_subtree_keep(nodes, root),
                nodes.len() as int,
            ).contains(#[trigger] nodes[k]),
        forall|p: int|
            0 <= p < spec_kept(nodes, spec_subtree_keep(nodes, root), nodes.len() as int).len()
                ==> kept_elem_ok(
                nodes,
                spec_subtree_keep(nodes, root),
                nodes.len() as int,
                #[trigger] spec_kept(nodes, spec_subtree_keep(nodes, root), nodes.len() as int)[p],
            ),
{
    let keep = spec_subtree_keep(nodes, root);
    let n = nodes.len() as int;
    lemma_kept_membership(nodes, keep, n);
    assert forall|k: int|
        0 <= k < nodes.len() && (#[trigger] nodes[k]).id@ == root implies in_subtree(
        nodes,
        root,
        k,
    ) by {
        lemma_subtree_closure(nodes, root, k, 0);
    }
    assert forall|i: int, j: int|
        (0 <= i < nodes.len() && (#[trigger] nodes[i]).parent_id is Some && 0 <= j < i
            && (#[trigger] nodes[j]).id@ == (nodes[i].parent_id->Some_0)@ && in_subtree(
            nodes,
            root,
            j,
        )) implies in_subtree(nodes, root, i) by {
        lemma_subtree_closure(nodes, root, i, j);
    }
}

} // verus!
