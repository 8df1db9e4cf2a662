//! The bounding-volume hierarchy: a binary tree of boxes over a list of
//! primitives, kept in a flat arena.
//!
//! The tree knows a primitive by its place in the caller's list and by its
//! bounding box. A leaf holds one primitive; a branch holds two subtrees and
//! the box that surrounds both. Nodes are told apart by their place in the
//! arena, and the two children of a branch always stand before it.

use vstd::prelude::*;
use vstd::seq_lib::lemma_multiset_commutative;
use crate::aabb::{surrounding, surrounding_box, Aabb};
use crate::intersection::{
    distances_are_numbers, is_nearest_hit, nearer, select_nearer, Intersection,
};
use crate::rng::random_axis;

verus! {

/// The place of a node in the arena.
#[derive(Clone, Copy, Debug, PartialEq, Eq, Structural)]
pub struct NodeId {
    pub index: usize,
}

/// A primitive as the tree knows it: its place in the caller's list and its
/// bounding box.
#[derive(Clone, Copy, Debug, PartialEq, Eq, Structural)]
pub struct Entry {
    pub object: usize,
    pub aabb: Aabb,
}

/// A node of the tree.
#[derive(Clone, Copy, Debug, PartialEq, Eq, Structural)]
pub enum BvhNode {
    /// One primitive.
    Leaf(Entry),
    /// Two subtrees, and the box that surrounds the boxes of both.
    Branch(Aabb, NodeId, NodeId),
}

/// A bounding-volume hierarchy.
#[derive(Debug)]
pub struct BvhTree {
    nodes: Vec<BvhNode>,
    root: NodeId,
}

impl Entry {
    /// The number by which primitives are ordered along an axis: the rank of
    /// the minimum corner of the box on that axis.
    pub open spec fn spec_axis_key(self, axis: int) -> int {
        self.aabb.min.component(axis).rank()
    }

    /// The number by which primitives are ordered along an axis.
    pub fn axis_key(&self, axis: usize) -> (key: i64)
        requires
            axis < 3,
        ensures
            key == self.spec_axis_key(axis as int),
    {
        self.aabb.min.get(axis).rank_value()
    }
}

impl BvhNode {
    /// The box of the node.
    pub open spec fn aabb(self) -> Aabb {
        match self {
            BvhNode::Leaf(e) => e.aabb,
            BvhNode::Branch(b, _, _) => b,
        }
    }
}

/// The primitives with their boxes, in the order of the caller's list.
pub open spec fn indexed(boxes: Seq<Aabb>) -> Seq<Entry> {
    Seq::new(boxes.len(), |i: int| Entry { object: i as usize, aabb: boxes[i] })
}

/// Whether `left` and `right` are the two parts of a split at the middle
/// along `axis`: no primitive on the left lies above one on the right along
/// that axis, and the left part is the smaller by one or by none.
pub open spec fn split_along(left: Seq<Entry>, right: Seq<Entry>, axis: int) -> bool {
    &&& 0 <= axis < 3
    &&& left.len() == (left.len() + right.len()) / 2
    &&& forall|i: int, j: int|
        0 <= i < left.len() && 0 <= j < right.len() ==> (#[trigger] left[i]).spec_axis_key(axis)
            <= (#[trigger] right[j]).spec_axis_key(axis)
}

/// Whether the node at `id` is sound: the children of a branch stand before
/// it in the arena, its box is the surrounding box of theirs, its primitives
/// are split at the middle along one of the three axes, and it has no more
/// primitives under it than there are nodes before it.
pub open spec fn node_ok(nodes: Seq<BvhNode>, id: int) -> bool {
    match nodes[id] {
        BvhNode::Leaf(_) => true,
        BvhNode::Branch(b, l, r) => {
            &&& l.index < id
            &&& r.index < id
            &&& b == surrounding(nodes[l.index as int].aabb(), nodes[r.index as int].aabb())
            &&& entries(nodes, id).len() <= id
            &&& exists|axis: int| #[trigger]
                split_along(entries(nodes, l.index as int), entries(nodes, r.index as int), axis)
        },
    }
}

/// Whether every node of the arena is sound.
pub open spec fn nodes_wf(nodes: Seq<BvhNode>) -> bool {
    forall|id: int| 0 <= id < nodes.len() ==> node_ok(nodes, id)
}

/// The primitives under the node at `id`, from left to right.
pub open spec fn entries(nodes: Seq<BvhNode>, id: int) -> Seq<Entry>
    decreases id,
{
    if 0 <= id < nodes.len() {
        match nodes[id] {
            BvhNode::Leaf(e) => seq![e],
            BvhNode::Branch(_, l, r) => if l.index < id && r.index < id {
                entries(nodes, l.index as int) + entries(nodes, r.index as int)
            } else {
                Seq::empty()
            },
        }
    } else {
        Seq::empty()
    }
}

/// Whether every leaf of the arena from place `from` on holds one of `items`.
pub open spec fn leaves_listed(nodes: Seq<BvhNode>, from: int, items: Seq<Entry>) -> bool {
    forall|id: int|
        from <= id < nodes.len() && (#[trigger] nodes[id]) is Leaf ==> items.contains(
            nodes[id]->Leaf_0,
        )
}

/// Whether `items` are in ascending order of their keys along `axis`.
pub open spec fn sorted_along(items: Seq<Entry>, axis: int) -> bool {
    forall|i: int, j: int|
        0 <= i <= j < items.len() ==> items[i].spec_axis_key(axis) <= items[j].spec_axis_key(axis)
}

/// Orders the primitives by their keys along one axis.
///
/// Calls `<[T]>::sort_by_key` of std with `Entry::axis_key` as the key. std
/// documents that the slice is sorted by the key and that the sort is stable;
/// the contract claims that the result is in ascending order of the keys and
/// holds the same entries as before, each as often as before.
#[verifier::external_body]
fn sort_along(items: &mut Vec<Entry>, axis: usize)
    requires
        axis < 3,
    ensures
        sorted_along(final(items)@, axis as int),
        final(items)@.to_multiset() == old(items)@.to_multiset(),
{
    items.sort_by_key(|e| e.axis_key(axis));
}

/// A sound arena stays sound when a sound node is appended to it.
pub proof fn lemma_push_keeps_wf(nodes: Seq<BvhNode>, node: BvhNode)
    requires
        nodes_wf(nodes),
        node_ok(nodes.push(node), nodes.len() as int),
    ensures
        nodes_wf(nodes.push(node)),
{
    let after = nodes.push(node);
    assert(after.subrange(0, nodes.len() as int) =~= nodes);
    assert forall|id: int| 0 <= id < after.len() implies node_ok(after, id) by {
        if id < nodes.len() {
            assert(node_ok(nodes, id));
            lemma_entries_of_prefix(nodes, after, id);
            if nodes[id] is Branch {
                lemma_entries_of_prefix(nodes, after, nodes[id]->Branch_1.index as int);
                lemma_entries_of_prefix(nodes, after, nodes[id]->Branch_2.index as int);
            }
        }
    }
}

/// Two sequences that hold the same things equally often have the same
/// members.
pub proof fn lemma_same_members(a: Seq<Entry>, b: Seq<Entry>)
    requires
        a.to_multiset() == b.to_multiset(),
    ensures
        forall|e: Entry| a.contains(e) <==> b.contains(e),
{
    broadcast use vstd::seq_lib::group_to_multiset_ensures;

    assert forall|e: Entry| a.contains(e) <==> b.contains(e) by {
        assert(a.contains(e) <==> a.to_multiset().count(e) > 0);
        assert(b.contains(e) <==> b.to_multiset().count(e) > 0);
    }
}

/// Nodes appended to an arena leave what stood in it before as it was.
pub proof fn lemma_entries_of_prefix(before: Seq<BvhNode>, after: Seq<BvhNode>, id: int)
    requires
        before.len() <= after.len(),
        after.subrange(0, before.len() as int) == before,
        0 <= id < before.len(),
    ensures
        entries(after, id) == entries(before, id),
    decreases id,
{
    assert(after[id] == after.subrange(0, before.len() as int)[id]);
    match before[id] {
        BvhNode::Leaf(_) => {},
        BvhNode::Branch(_, l, r) => {
            if l.index < id && r.index < id {
                lemma_entries_of_prefix(before, after, l.index as int);
                lemma_entries_of_prefix(before, after, r.index as int);
            }
        },
    }
}

impl Clone for BvhTree {
    /// A tree with the same arena and the same root.
    fn clone(&self) -> (r: BvhTree)
        ensures
            r.nodes() == self.nodes(),
            r.root() == self.root(),
    {
        let mut nodes: Vec<BvhNode> = Vec::new();
        let mut i: usize = 0;
        while i < self.nodes.len()
            invariant
                i <= self.nodes.len(),
                nodes@ =~= self.nodes@.subrange(0, i as int),
            decreases self.nodes.len() - i,
        {
            nodes.push(self.nodes[i]);
            i += 1;
        }
        assert(nodes@ =~= self.nodes@);
        BvhTree { nodes, root: self.root }
    }
}

impl BvhTree {
    /// The arena.
    pub closed spec fn nodes(&self) -> Seq<BvhNode> {
        self.nodes@
    }

    /// The place of the root in the arena.
    pub closed spec fn root(&self) -> int {
        self.root.index as int
    }

    /// The arena has no more nodes than a machine word can count.
    pub proof fn lemma_arena_is_bounded(&self)
        ensures
            self.nodes().len() <= usize::MAX,
    {
        assert(self.nodes@.len() == self.nodes.len());
    }

    /// The tree invariant: the arena is sound and the root is one of its
    /// nodes.
    pub open spec fn wf(&self) -> bool {
        &&& nodes_wf(self.nodes())
        &&& 0 <= self.root() < self.nodes().len()
    }

    /// The primitives of the tree, from left to right.
    pub open spec fn primitives(&self) -> Seq<Entry> {
        entries(self.nodes(), self.root())
    }

    /// Whether the tree is a hierarchy over the primitives whose boxes are
    /// `boxes`: it is sound, it holds every primitive exactly once, each with
    /// its own box, and its arena has a leaf for each primitive, a branch
    /// for each but one, and nothing else.
    pub open spec fn describes(&self, boxes: Seq<Aabb>) -> bool {
        &&& self.wf()
        &&& self.primitives().to_multiset() == indexed(boxes).to_multiset()
        &&& self.nodes().len() == 2 * boxes.len() - 1
        &&& leaves_listed(self.nodes(), 0, indexed(boxes))
    }

    fn new_leaf(&mut self, entry: Entry) -> (id: NodeId)
        requires
            nodes_wf(old(self).nodes()),
        ensures
            nodes_wf(final(self).nodes()),
            final(self).nodes() == old(self).nodes().push(BvhNode::Leaf(entry)),
            final(self).root() == old(self).root(),
            id.index == old(self).nodes().len(),
    {
        let next_index = self.nodes.len();
        proof {
            lemma_push_keeps_wf(self.nodes(), BvhNode::Leaf(entry));
        }
        self.nodes.push(BvhNode::Leaf(entry));
        NodeId { index: next_index }
    }

    fn new_node(&mut self, aabb: Aabb, left: NodeId, right: NodeId) -> (id: NodeId)
        requires
            nodes_wf(old(self).nodes()),
            left.index < old(self).nodes().len(),
            right.index < old(self).nodes().len(),
            aabb == surrounding(
                old(self).nodes()[left.index as int].aabb(),
                old(self).nodes()[right.index as int].aabb(),
            ),
            entries(old(self).nodes(), left.index as int).len() + entries(
                old(self).nodes(),
                right.index as int,
            ).len() <= old(self).nodes().len(),
            exists|axis: int| #[trigger]
                split_along(
                    entries(old(self).nodes(), left.index as int),
                    entries(old(self).nodes(), right.index as int),
                    axis,
                ),
        ensures
            nodes_wf(final(self).nodes()),
            final(self).nodes() == old(self).nodes().push(BvhNode::Branch(aabb, left, right)),
            final(self).root() == old(self).root(),
            id.index == old(self).nodes().len(),
    {
        let next_index = self.nodes.len();
        proof {
            let after = self.nodes().push(BvhNode::Branch(aabb, left, right));
            assert(after.subrange(0, self.nodes().len() as int) =~= self.nodes());
            lemma_entries_of_prefix(self.nodes(), after, left.index as int);
            lemma_entries_of_prefix(self.nodes(), after, right.index as int);
            lemma_push_keeps_wf(self.nodes(), BvhNode::Branch(aabb, left, right));
        }
        self.nodes.push(BvhNode::Branch(aabb, left, right));
        NodeId { index: next_index }
    }

    fn node_box(&self, id: NodeId) -> (b: Aabb)
        requires
            id.index < self.nodes().len(),
        ensures
            b == self.nodes()[id.index as int].aabb(),
    {
        match self.nodes[id.index] {
            BvhNode::Leaf(e) => e.aabb,
            BvhNode::Branch(b, _, _) => b,
        }
    }

    /// Builds the subtree over `items` at the end of the arena: the items are
    /// ordered along an axis chosen at random and split at the middle, down
    /// to single primitives.
    fn build(&mut self, items: Vec<Entry>) -> (id: NodeId)
        requires
            items.len() >= 1,
            nodes_wf(old(self).nodes()),
        ensures
            nodes_wf(final(self).nodes()),
            final(self).root() == old(self).root(),
            final(self).nodes().len() == old(self).nodes().len() + 2 * items.len() - 1,
            final(self).nodes().subrange(0, old(self).nodes().len() as int) == old(self).nodes(),
            id.index == final(self).nodes().len() - 1,
            entries(final(self).nodes(), id.index as int).to_multiset() == items@.to_multiset(),
            leaves_listed(final(self).nodes(), old(self).nodes().len() as int, items@),
        decreases items.len(),
    {
        let mut items = items;
        let ghost given = items@;
        let ghost before = self.nodes();
        let axis = random_axis();
        sort_along(&mut items, axis);
        proof {
            vstd::seq_lib::to_multiset_len(given);
            vstd::seq_lib::to_multiset_len(items@);
        }
        let ghost sorted = items@;
        if items.len() == 1 {
            let id = self.new_leaf(items[0]);
            proof {
                assert(sorted =~= seq![sorted[0]]);
                assert(self.nodes().subrange(0, before.len() as int) =~= before);
                lemma_same_members(sorted, given);
                assert(sorted.contains(sorted[0]));
            }
            return id;
        }
        let left: NodeId;
        let right: NodeId;
        if items.len() == 2 {
            left = self.new_leaf(items[0]);
            let ghost middle = self.nodes();
            right = self.new_leaf(items[1]);
            proof {
                assert(sorted =~= seq![sorted[0]] + seq![sorted[1]]);
                lemma_multiset_commutative(seq![sorted[0]], seq![sorted[1]]);
                assert(sorted.subrange(0, 1) =~= seq![sorted[0]]);
                assert(sorted.subrange(1, 2) =~= seq![sorted[1]]);
                assert(self.nodes().subrange(0, middle.len() as int) =~= middle);
                lemma_entries_of_prefix(middle, self.nodes(), left.index as int);
                assert(sorted.contains(sorted[0]));
                assert(sorted.contains(sorted[1]));
            }
        } else {
            let half_len = items.len() / 2;
            let right_items = items.split_off(half_len);
            proof {
                assert(sorted =~= items@ + right_items@);
                lemma_multiset_commutative(items@, right_items@);
            }
            let ghost left_items = items@;
            assert(left_items =~= sorted.subrange(0, (sorted.len() / 2) as int));
            assert(right_items@ =~= sorted.subrange(
                (sorted.len() / 2) as int,
                sorted.len() as int,
            ));
            left = self.build(items);
            let ghost middle = self.nodes();
            right = self.build(right_items);
            proof {
                lemma_entries_of_prefix(middle, self.nodes(), left.index as int);
                assert(self.nodes().subrange(0, before.len() as int) =~= middle.subrange(
                    0,
                    before.len() as int,
                ));
                vstd::seq_lib::to_multiset_len(left_items);
                vstd::seq_lib::to_multiset_len(right_items@);
                vstd::seq_lib::to_multiset_len(entries(self.nodes(), left.index as int));
                vstd::seq_lib::to_multiset_len(entries(self.nodes(), right.index as int));
                assert forall|e: Entry| left_items.contains(e) implies sorted.contains(e) by {
                    let k = choose|k: int| 0 <= k < left_items.len() && left_items[k] == e;
                    assert(sorted[k] == e);
                }
                assert forall|e: Entry| right_items@.contains(e) implies sorted.contains(e) by {
                    let k = choose|k: int| 0 <= k < right_items@.len() && right_items@[k] == e;
                    assert(sorted[half_len + k] == e);
                }
                assert forall|id: int|
                    before.len() <= id < self.nodes().len() && (#[trigger] self.nodes()[id])
                        is Leaf implies sorted.contains(self.nodes()[id]->Leaf_0) by {
                    if id < middle.len() {
                        assert(self.nodes()[id] == self.nodes().subrange(0, middle.len() as int)[id]);
                        assert(middle[id] is Leaf);
                    }
                }
            }
        }
        let ghost children = self.nodes();
        proof {
            let l = entries(children, left.index as int);
            let r = entries(children, right.index as int);
            let half = sorted.len() / 2;
            let low = sorted.subrange(0, half as int);
            let high = sorted.subrange(half as int, sorted.len() as int);
            assert(l.to_multiset() == low.to_multiset() && r.to_multiset() == high.to_multiset());
            lemma_same_members(l, low);
            lemma_same_members(r, high);
            vstd::seq_lib::to_multiset_len(l);
            vstd::seq_lib::to_multiset_len(r);
            vstd::seq_lib::to_multiset_len(low);
            vstd::seq_lib::to_multiset_len(high);
            assert forall|i: int, j: int| 0 <= i < l.len() && 0 <= j < r.len() implies (
            #[trigger] l[i]).spec_axis_key(axis as int) <= (#[trigger] r[j]).spec_axis_key(
                axis as int,
            ) by {
                assert(l.contains(l[i]));
                assert(r.contains(r[j]));
                let a = choose|a: int| 0 <= a < low.len() && low[a] == l[i];
                let b = choose|b: int| 0 <= b < high.len() && high[b] == r[j];
                assert(sorted[a] == l[i]);
                assert(sorted[half + b] == r[j]);
            }
            assert(split_along(l, r, axis as int));
        }
        let left_box = self.node_box(left);
        let right_box = self.node_box(right);
        let id = self.new_node(surrounding_box(&left_box, &right_box), left, right);
        proof {
            assert(self.nodes().subrange(0, children.len() as int) =~= children);
            lemma_entries_of_prefix(children, self.nodes(), left.index as int);
            lemma_entries_of_prefix(children, self.nodes(), right.index as int);
            lemma_multiset_commutative(
                entries(children, left.index as int),
                entries(children, right.index as int),
            );
            assert(self.nodes().subrange(0, before.len() as int) =~= before);
            lemma_same_members(sorted, given);
            assert forall|id: int|
                before.len() <= id < self.nodes().len() && (#[trigger] self.nodes()[id])
                    is Leaf implies given.contains(self.nodes()[id]->Leaf_0) by {
                assert(self.nodes()[id] == children[id]);
                assert(sorted.contains(children[id]->Leaf_0));
            }
        }
        id
    }

    /// Builds the hierarchy over the primitives whose bounding boxes are
    /// `boxes`, in the order of the caller's list. Which of the hierarchies
    /// over these primitives comes out is left to chance.
    pub fn new(boxes: &Vec<Aabb>) -> (tree: BvhTree)
        requires
            boxes.len() >= 1,
        ensures
            tree.describes(boxes@),
    {
        let mut items: Vec<Entry> = Vec::new();
        let mut i: usize = 0;
        while i < boxes.len()
            invariant
                i <= boxes.len(),
                items@ =~= indexed(boxes@).subrange(0, i as int),
            decreases boxes.len() - i,
        {
            items.push(Entry { object: i, aabb: boxes[i] });
            i += 1;
        }
        assert(items@ =~= indexed(boxes@));
        let mut tree = BvhTree { nodes: Vec::new(), root: NodeId { index: 0 } };
        let root = tree.build(items);
        tree.root = root;
        tree
    }

    /// The place of the root.
    pub fn root_id(&self) -> (id: NodeId)
        ensures
            id.index == self.root(),
    {
        self.root
    }

    /// The number of nodes in the arena.
    pub fn node_count(&self) -> (n: usize)
        ensures
            n == self.nodes().len(),
    {
        self.nodes.len()
    }

    /// The number of primitives under the node at `id`.
    pub fn number_hittables(&self, id: NodeId) -> (n: usize)
        requires
            nodes_wf(self.nodes()),
            id.index < self.nodes().len(),
        ensures
            n == entries(self.nodes(), id.index as int).len(),
        decreases id.index,
    {
        match self.nodes[id.index] {
            BvhNode::Leaf(_) => 1,
            BvhNode::Branch(_, left, right) => {
                proof {
                    assert(node_ok(self.nodes(), id.index as int));
                }
                let count_left = self.number_hittables(left);
                let count_right = self.number_hittables(right);
                assert(entries(self.nodes(), id.index as int) == entries(
                    self.nodes(),
                    left.index as int,
                ) + entries(self.nodes(), right.index as int));
                count_left + count_right
            },
        }
    }

    /// The places, in the caller's list, of the primitives under the node at
    /// `id`, from left to right.
    pub fn objects_under(&self, id: NodeId) -> (objects: Vec<usize>)
        requires
            nodes_wf(self.nodes()),
            id.index < self.nodes().len(),
        ensures
            objects.len() == entries(self.nodes(), id.index as int).len(),
            forall|j: int|
                0 <= j < objects.len() ==> #[trigger] objects[j] == entries(
                    self.nodes(),
                    id.index as int,
                )[j].object,
        decreases id.index,
    {
        match self.nodes[id.index] {
            BvhNode::Leaf(e) => {
                let mut objects: Vec<usize> = Vec::new();
                objects.push(e.object);
                objects
            },
            BvhNode::Branch(_, left, right) => {
                proof {
                    assert(node_ok(self.nodes(), id.index as int));
                }
                let mut objects = self.objects_under(left);
                let mut from_right = self.objects_under(right);
                objects.append(&mut from_right);
                objects
            },
        }
    }

    /// The node at `id`.
    pub fn node(&self, id: NodeId) -> (node: BvhNode)
        requires
            id.index < self.nodes().len(),
        ensures
            node == self.nodes()[id.index as int],
    {
        self.nodes[id.index]
    }

    /// The box that encloses every primitive of the tree: the box of the
    /// root.
    pub fn bounding_box(&self) -> (b: Aabb)
        requires
            self.wf(),
        ensures
            b == self.nodes()[self.root()].aabb(),
    {
        self.node_box(self.root)
    }

    /// The nearest hit among the primitives under the node at `id`, as the
    /// two tests see them. A leaf answers with the test of its primitive. A
    /// branch whose box fails the box test answers with no hit; otherwise
    /// both subtrees are asked, and of their answers the nearer is kept.
    fn intersects<B: Fn(Aabb) -> bool, L: Fn(usize) -> Option<Intersection>>(
        &self,
        id: NodeId,
        box_test: &B,
        leaf_test: &L,
    ) -> (r: Option<Intersection>)
        requires
            nodes_wf(self.nodes()),
            id.index < self.nodes().len(),
            accepts(self.nodes(), box_test, leaf_test),
        ensures
            outcome(
                self.nodes(),
                id.index as int,
                answers_of_box_test(box_test),
                answers_of_leaf_test(leaf_test),
                r,
            ),
        decreases id.index,
    {
        proof {
            assert(node_ok(self.nodes(), id.index as int));
        }
        match self.nodes[id.index] {
            BvhNode::Leaf(e) => leaf_test(e.object),
            BvhNode::Branch(aabb, left, right) => {
                if box_test(aabb) {
                    let hit_left = self.intersects(left, box_test, leaf_test);
                    let hit_right = self.intersects(right, box_test, leaf_test);
                    let kept = select_nearer(hit_left, hit_right);
                    assert(child_answers(hit_left, hit_right));
                    kept
                } else {
                    None
                }
            },
        }
    }

    /// The nearest hit of a ray in the tree. The ray is given by two tests:
    /// `box_test` says whether it passes through a box within the window of
    /// the query, and `leaf_test` gives its hit with the primitive at a
    /// place in the caller's list, if there is one.
    pub fn hit<B: Fn(Aabb) -> bool, L: Fn(usize) -> Option<Intersection>>(
        &self,
        box_test: &B,
        leaf_test: &L,
    ) -> (r: Option<Intersection>)
        requires
            self.wf(),
            accepts(self.nodes(), box_test, leaf_test),
        ensures
            outcome(
                self.nodes(),
                self.root(),
                answers_of_box_test(box_test),
                answers_of_leaf_test(leaf_test),
                r,
            ),
    {
        self.intersects(self.root, box_test, leaf_test)
    }

    /// One line that says how many primitives and how many nodes the tree
    /// has.
    pub fn describe(&self) -> (text: String)
        requires
            self.wf(),
        ensures
            text@ == summary_text(self.primitives().len() as usize, self.nodes().len() as usize),
    {
        summary_line(self.number_hittables(self.root), self.nodes.len())
    }
}

/// Every node has a primitive under it.
pub proof fn lemma_entries_are_not_empty(nodes: Seq<BvhNode>, id: int)
    requires
        nodes_wf(nodes),
        0 <= id < nodes.len(),
    ensures
        entries(nodes, id).len() >= 1,
    decreases id,
{
    assert(node_ok(nodes, id));
    match nodes[id] {
        BvhNode::Leaf(_) => {},
        BvhNode::Branch(_, left, _) => {
            lemma_entries_are_not_empty(nodes, left.index as int);
        },
    }
}

/// The box of a node holds the box of every primitive under the node, where
/// the boxes of these primitives are boxes.
pub proof fn lemma_node_box_holds_primitives(nodes: Seq<BvhNode>, id: int, j: int)
    requires
        nodes_wf(nodes),
        0 <= id < nodes.len(),
        0 <= j < entries(nodes, id).len(),
        forall|k: int| 0 <= k < entries(nodes, id).len() ==> (#[trigger] entries(nodes, id)[k]).aabb.wf(),
    ensures
        nodes[id].aabb().wf(),
        nodes[id].aabb().contains(entries(nodes, id)[j].aabb),
    decreases id,
{
    assert(node_ok(nodes, id));
    let among = entries(nodes, id);
    match nodes[id] {
        BvhNode::Leaf(e) => {
            assert(among[0] == e);
        },
        BvhNode::Branch(b, left, right) => {
            let l = entries(nodes, left.index as int);
            let r = entries(nodes, right.index as int);
            assert(among == l + r);
            assert forall|k: int| 0 <= k < l.len() implies (#[trigger] l[k]).aabb.wf() by {
                assert(among[k] == l[k]);
            }
            assert forall|k: int| 0 <= k < r.len() implies (#[trigger] r[k]).aabb.wf() by {
                assert(among[l.len() + k] == r[k]);
            }
            lemma_entries_are_not_empty(nodes, left.index as int);
            lemma_entries_are_not_empty(nodes, right.index as int);
            lemma_node_box_holds_primitives(nodes, left.index as int, 0);
            lemma_node_box_holds_primitives(nodes, right.index as int, 0);
            let lb = nodes[left.index as int].aabb();
            let rb = nodes[right.index as int].aabb();
            crate::aabb::lemma_surrounding_box_contains(lb, rb);
            if j < l.len() {
                lemma_node_box_holds_primitives(nodes, left.index as int, j);
                assert(among[j] == l[j]);
            } else {
                lemma_node_box_holds_primitives(nodes, right.index as int, j - l.len());
                assert(among[j] == r[j - l.len()]);
            }
        },
    }
}

/// What a box test can answer: the relation between a box and each verdict
/// that a call of `box_test` on it can end with.
pub open spec fn answers_of_box_test<B: Fn(Aabb) -> bool>(box_test: &B) -> spec_fn(
    Aabb,
    bool,
) -> bool {
    |b: Aabb, verdict: bool| call_ensures(box_test, (b,), verdict)
}

/// What a leaf test can answer: the relation between the place of a
/// primitive and each outcome that a call of `leaf_test` on it can end with.
pub open spec fn answers_of_leaf_test<L: Fn(usize) -> Option<Intersection>>(
    leaf_test: &L,
) -> spec_fn(usize, Option<Intersection>) -> bool {
    |object: usize, hit: Option<Intersection>| call_ensures(leaf_test, (object,), hit)
}

/// Whether the two tests may be called on what the arena holds: the box test
/// on the box of every branch, the leaf test on the primitive of every leaf.
pub open spec fn accepts<B: Fn(Aabb) -> bool, L: Fn(usize) -> Option<Intersection>>(
    nodes: Seq<BvhNode>,
    box_test: &B,
    leaf_test: &L,
) -> bool {
    forall|id: int|
        0 <= id < nodes.len() ==> match #[trigger] nodes[id] {
            BvhNode::Leaf(e) => call_requires(leaf_test, (e.object,)),
            BvhNode::Branch(b, _, _) => call_requires(box_test, (b,)),
        }
}

/// A pair of answers, one from each subtree of a branch. It holds of every
/// pair, and serves to name the pair.
pub open spec fn child_answers(
    from_left: Option<Intersection>,
    from_right: Option<Intersection>,
) -> bool {
    true
}

/// Whether `r` can be the answer of the traversal at the node at `id`, where
/// `boxes` relates each box to the verdicts that the box test can give on it
/// and `leaves` relates each primitive to the outcomes that the leaf test
/// can give for it. At a leaf, `r` is an outcome for the leaf's primitive. At
/// a branch, `r` is no hit if the branch's box can be rejected; and if the
/// box can be passed, `r` is the nearer of an answer for the left and an
/// answer for the right subtree.
pub open spec fn outcome(
    nodes: Seq<BvhNode>,
    id: int,
    boxes: spec_fn(Aabb, bool) -> bool,
    leaves: spec_fn(usize, Option<Intersection>) -> bool,
    r: Option<Intersection>,
) -> bool
    decreases id,
{
    if 0 <= id < nodes.len() {
        match nodes[id] {
            BvhNode::Leaf(e) => leaves(e.object, r),
            BvhNode::Branch(b, left, right) => {
                ||| boxes(b, false) && r is None
                ||| boxes(b, true) && left.index < id && right.index < id && exists|
                    from_left: Option<Intersection>,
                    from_right: Option<Intersection>,
                |
                    #[trigger] child_answers(from_left, from_right) && outcome(
                        nodes,
                        left.index as int,
                        boxes,
                        leaves,
                        from_left,
                    ) && outcome(nodes, right.index as int, boxes, leaves, from_right) && r
                        == nearer(from_left, from_right)
            },
        }
    } else {
        false
    }
}

/// Whether `found` is a nearest hit among the primitives `among`, where
/// `hits` holds the outcome of the leaf test for each primitive of the
/// caller's list.
pub open spec fn nearest_among(
    found: Option<Intersection>,
    among: Seq<Entry>,
    hits: Seq<Option<Intersection>>,
) -> bool {
    &&& found is Some ==> exists|j: int|
        0 <= j < among.len() && hits[(#[trigger] among[j]).object as int] == found
    &&& forall|j: int|
        0 <= j < among.len() && hits[(#[trigger] among[j]).object as int] is Some ==> found is Some
            && found->0.distance.rank() <= hits[among[j].object as int]->0.distance.rank()
}

/// Whether the leaf test is described by a table: whatever it can answer
/// for a primitive is the table's entry for that primitive.
pub open spec fn leaves_follow(
    leaves: spec_fn(usize, Option<Intersection>) -> bool,
    hits: Seq<Option<Intersection>>,
) -> bool {
    forall|i: usize, r: Option<Intersection>|
        i < hits.len() && #[trigger] leaves(i, r) ==> r == hits[i as int]
}

/// Whether the box test is conservative for a table of hits: it can reject
/// the box of a branch only if the table has no hit for any primitive under
/// that branch.
pub open spec fn boxes_are_conservative(
    nodes: Seq<BvhNode>,
    boxes: spec_fn(Aabb, bool) -> bool,
    hits: Seq<Option<Intersection>>,
) -> bool {
    forall|id: int, j: int|
        0 <= id < nodes.len() && boxes(nodes[id].aabb(), false) && 0 <= j < entries(
            nodes,
            id,
        ).len() ==> hits[(#[trigger] entries(nodes, id)[j]).object as int] is None
}

/// An answer of the traversal stays one when the two tests are allowed more
/// answers.
pub proof fn lemma_outcome_is_monotone(
    nodes: Seq<BvhNode>,
    id: int,
    boxes: spec_fn(Aabb, bool) -> bool,
    leaves: spec_fn(usize, Option<Intersection>) -> bool,
    more_boxes: spec_fn(Aabb, bool) -> bool,
    more_leaves: spec_fn(usize, Option<Intersection>) -> bool,
    r: Option<Intersection>,
)
    requires
        outcome(nodes, id, boxes, leaves, r),
        forall|b: Aabb, verdict: bool| #[trigger] boxes(b, verdict) ==> more_boxes(b, verdict),
        forall|id: int|
            0 <= id < nodes.len() && (#[trigger] nodes[id]) is Leaf ==> (forall|
                hit: Option<Intersection>,
            | #[trigger]
                leaves(nodes[id]->Leaf_0.object, hit) ==> more_leaves(
                    nodes[id]->Leaf_0.object,
                    hit,
                )),
    ensures
        outcome(nodes, id, more_boxes, more_leaves, r),
    decreases id,
{
    match nodes[id] {
        BvhNode::Leaf(e) => {},
        BvhNode::Branch(b, left, right) => {
            if boxes(b, false) && r is None {
            } else {
                let (from_left, from_right) = choose|
                    from_left: Option<Intersection>,
                    from_right: Option<Intersection>,
                |
                    #[trigger] child_answers(from_left, from_right) && outcome(
                        nodes,
                        left.index as int,
                        boxes,
                        leaves,
                        from_left,
                    ) && outcome(nodes, right.index as int, boxes, leaves, from_right) && r
                        == nearer(from_left, from_right);
                lemma_outcome_is_monotone(
                    nodes,
                    left.index as int,
                    boxes,
                    leaves,
                    more_boxes,
                    more_leaves,
                    from_left,
                );
                lemma_outcome_is_monotone(
                    nodes,
                    right.index as int,
                    boxes,
                    leaves,
                    more_boxes,
                    more_leaves,
                    from_right,
                );
                assert(child_answers(from_left, from_right));
            }
        },
    }
}

/// Whatever the traversal answers with at a node is an outcome of the leaf
/// test for one of the primitives under that node: the traversal invents no
/// hit.
pub proof fn lemma_hit_comes_from_a_leaf(
    nodes: Seq<BvhNode>,
    id: int,
    boxes: spec_fn(Aabb, bool) -> bool,
    leaves: spec_fn(usize, Option<Intersection>) -> bool,
    found: Option<Intersection>,
)
    requires
        outcome(nodes, id, boxes, leaves, found),
        found is Some,
    ensures
        exists|j: int|
            0 <= j < entries(nodes, id).len() && leaves(
                (#[trigger] entries(nodes, id)[j]).object,
                found,
            ),
    decreases id,
{
    let among = entries(nodes, id);
    match nodes[id] {
        BvhNode::Leaf(e) => {
            assert(among[0] == e);
        },
        BvhNode::Branch(b, left, right) => {
            let (from_left, from_right) = choose|
                from_left: Option<Intersection>,
                from_right: Option<Intersection>,
            |
                #[trigger] child_answers(from_left, from_right) && outcome(
                    nodes,
                    left.index as int,
                    boxes,
                    leaves,
                    from_left,
                ) && outcome(nodes, right.index as int, boxes, leaves, from_right) && found
                    == nearer(from_left, from_right);
            let l = entries(nodes, left.index as int);
            let r = entries(nodes, right.index as int);
            assert(among == l + r);
            if found == from_left {
                lemma_hit_comes_from_a_leaf(nodes, left.index as int, boxes, leaves, from_left);
                let j = choose|j: int| 0 <= j < l.len() && leaves((#[trigger] l[j]).object, found);
                assert(among[j] == l[j]);
            } else {
                lemma_hit_comes_from_a_leaf(nodes, right.index as int, boxes, leaves, from_right);
                let j = choose|j: int| 0 <= j < r.len() && leaves((#[trigger] r[j]).object, found);
                assert(among[l.len() + j] == r[j]);
            }
        },
    }
}

/// The nearer of a nearest hit among some primitives and a nearest hit among
/// others is a nearest hit among all of them.
pub proof fn lemma_nearest_of_both(
    from_left: Option<Intersection>,
    from_right: Option<Intersection>,
    left: Seq<Entry>,
    right: Seq<Entry>,
    hits: Seq<Option<Intersection>>,
)
    requires
        distances_are_numbers(hits),
        nearest_among(from_left, left, hits),
        nearest_among(from_right, right, hits),
        forall|j: int| 0 <= j < left.len() ==> (#[trigger] left[j]).object < hits.len(),
        forall|j: int| 0 <= j < right.len() ==> (#[trigger] right[j]).object < hits.len(),
    ensures
        nearest_among(nearer(from_left, from_right), left + right, hits),
{
    let all = left + right;
    let kept = nearer(from_left, from_right);
    if from_left is Some {
        let j = choose|j: int|
            0 <= j < left.len() && hits[(#[trigger] left[j]).object as int] == from_left;
        assert(all[j] == left[j]);
        assert(hits[left[j].object as int] is Some);
    }
    if from_right is Some {
        let j = choose|j: int|
            0 <= j < right.len() && hits[(#[trigger] right[j]).object as int] == from_right;
        assert(all[left.len() + j] == right[j]);
        assert(hits[right[j].object as int] is Some);
    }
    assert forall|j: int|
        0 <= j < all.len() && hits[(#[trigger] all[j]).object as int] is Some implies kept is Some
        && kept->0.distance.rank() <= hits[all[j].object as int]->0.distance.rank() by {
        if j < left.len() {
            assert(all[j] == left[j]);
        } else {
            assert(all[j] == right[j - left.len()]);
        }
    }
}

/// At every node the traversal answers with a nearest hit among the
/// primitives under that node, provided that the leaf test follows a table
/// of hits whose distances are numbers and that the box test is conservative
/// for that table.
pub proof fn lemma_subtree_nearest(
    nodes: Seq<BvhNode>,
    id: int,
    boxes: spec_fn(Aabb, bool) -> bool,
    leaves: spec_fn(usize, Option<Intersection>) -> bool,
    hits: Seq<Option<Intersection>>,
    found: Option<Intersection>,
)
    requires
        nodes_wf(nodes),
        0 <= id < nodes.len(),
        outcome(nodes, id, boxes, leaves, found),
        leaves_follow(leaves, hits),
        boxes_are_conservative(nodes, boxes, hits),
        distances_are_numbers(hits),
        forall|j: int|
            0 <= j < entries(nodes, id).len() ==> (#[trigger] entries(nodes, id)[j]).object
                < hits.len(),
    ensures
        nearest_among(found, entries(nodes, id), hits),
    decreases id,
{
    let among = entries(nodes, id);
    assert(node_ok(nodes, id));
    match nodes[id] {
        BvhNode::Leaf(e) => {
            assert(among[0] == e);
        },
        BvhNode::Branch(b, left, right) => {
            let l = entries(nodes, left.index as int);
            let r = entries(nodes, right.index as int);
            assert(among == l + r);
            if boxes(b, false) && found is None {
                assert forall|j: int| 0 <= j < among.len() implies hits[(
                #[trigger] among[j]).object as int] is None by {
                    assert(hits[entries(nodes, id)[j].object as int] is None);
                }
            } else {
                let (from_left, from_right) = choose|
                    from_left: Option<Intersection>,
                    from_right: Option<Intersection>,
                |
                    #[trigger] child_answers(from_left, from_right) && outcome(
                        nodes,
                        left.index as int,
                        boxes,
                        leaves,
                        from_left,
                    ) && outcome(nodes, right.index as int, boxes, leaves, from_right) && found
                        == nearer(from_left, from_right);
                assert forall|j: int| 0 <= j < l.len() implies (#[trigger] l[j]).object
                    < hits.len() by {
                    assert(among[j] == l[j]);
                }
                assert forall|j: int| 0 <= j < r.len() implies (#[trigger] r[j]).object
                    < hits.len() by {
                    assert(among[l.len() + j] == r[j]);
                }
                lemma_subtree_nearest(nodes, left.index as int, boxes, leaves, hits, from_left);
                lemma_subtree_nearest(nodes, right.index as int, boxes, leaves, hits, from_right);
                lemma_nearest_of_both(from_left, from_right, l, r, hits);
            }
        },
    }
}

/// The traversal finds what a scan of all primitives finds. Let `hits` hold,
/// for each primitive of the list over which `tree` was built, the outcome
/// of the leaf test, with distances that are numbers; and let the box test
/// be conservative for `hits`. Then whatever the traversal answers is a
/// nearest hit of `hits`; so it lies at the same distance as any other
/// nearest hit of `hits`, such as the one a scan keeps, and is no hit only
/// if nothing is hit.
pub proof fn lemma_traversal_finds_nearest(
    tree: BvhTree,
    primitive_boxes: Seq<Aabb>,
    boxes: spec_fn(Aabb, bool) -> bool,
    leaves: spec_fn(usize, Option<Intersection>) -> bool,
    hits: Seq<Option<Intersection>>,
    found: Option<Intersection>,
    scanned: Option<Intersection>,
)
    requires
        tree.describes(primitive_boxes),
        hits.len() == primitive_boxes.len(),
        leaves_follow(leaves, hits),
        boxes_are_conservative(tree.nodes(), boxes, hits),
        distances_are_numbers(hits),
        outcome(tree.nodes(), tree.root(), boxes, leaves, found),
        is_nearest_hit(scanned, hits),
    ensures
        is_nearest_hit(found, hits),
        found is Some <==> scanned is Some,
        found is Some ==> found->0.distance.rank() == scanned->0.distance.rank(),
{
    broadcast use vstd::seq_lib::group_to_multiset_ensures;

    tree.lemma_arena_is_bounded();
    let nodes = tree.nodes();
    let among = tree.primitives();
    let listed = indexed(primitive_boxes);
    assert forall|j: int| 0 <= j < among.len() implies (#[trigger] among[j]).object
        < hits.len() by {
        assert(among.contains(among[j]));
        assert(among.to_multiset().count(among[j]) > 0);
        assert(listed.contains(among[j]));
        let k = choose|k: int| 0 <= k < listed.len() && listed[k] == among[j];
        assert(listed[k].object == k);
    }
    lemma_subtree_nearest(nodes, tree.root(), boxes, leaves, hits, found);
    if found is Some {
        let j = choose|j: int|
            0 <= j < among.len() && hits[(#[trigger] among[j]).object as int] == found;
        assert(hits[among[j].object as int] == found);
    }
    assert forall|k: int| 0 <= k < hits.len() && (#[trigger] hits[k]) is Some implies found is Some
        && found->0.distance.rank() <= hits[k]->0.distance.rank() by {
        assert(listed[k] == Entry { object: k as usize, aabb: primitive_boxes[k] });
        assert(listed.contains(listed[k]));
        assert(listed.to_multiset().count(listed[k]) > 0);
        assert(among.contains(listed[k]));
        let j = choose|j: int| 0 <= j < among.len() && among[j] == listed[k];
        assert(among[j].object == k);
    }
    crate::intersection::lemma_nearest_hits_agree(found, scanned, hits);
}

/// The line that tells the two counts of a tree: the words `BVH with`, the
/// number of primitives in decimal digits, the words `hitables and`, the
/// number of nodes in decimal digits and the word `nodes`, with one space
/// between each two of them.
pub uninterp spec fn summary_text(hittables: usize, nodes: usize) -> Seq<char>;

/// Formats the two counts of a tree into one line, with `format!` of std,
/// which writes an integer in decimal digits. The text is a function of the
/// two counts alone; the contract gives it its name.
#[verifier::external_body]
fn summary_line(hittables: usize, nodes: usize) -> (text: String)
    ensures
        text@ == summary_text(hittables, nodes),
{
    format!("BVH with {:?} hitables and {:?} nodes", hittables, nodes)
}

} // verus!
