//! The construction of the hierarchy.
//!
//! The primitives in scope are ordered by the lower bound of their boxes on
//! the longest axis of the box that bounds them all, and split in the
//! middle; each half is treated in the same way, down to single primitives.
//! The extent of a box is a difference of two bounds, which is arithmetic:
//! the builder hands out the box whose extents it needs, and takes the three
//! extents back.
use vstd::prelude::*;
use vstd::seq_lib::*;
use crate::aabb::AABB;
use crate::bvh::{BVHNode, BVH};
use crate::entity::{first, EntityList};
use crate::scalar::Scalar;
use crate::vec3::Axis;

verus! {

/// Why a hierarchy could not be built.
#[derive(Debug, Clone, Copy, PartialEq, Eq, Structural)]
pub enum BvhError {
    /// There is no primitive to build it over.
    Empty,
}

/// The number by which primitive `p` is ordered on an axis: the ordering
/// integer of the lower bound of its box. A bound that is not a number has
/// an integer beyond those of the infinities.
pub open spec fn spec_min_key(boxes: Seq<AABB>, axis: Axis, p: int) -> int {
    boxes[p].spec_get_axis(axis).min.spec_key()
}

/// The number by which primitive `p` is ordered on an axis.
pub fn min_key(boxes: &Vec<AABB>, axis: Axis, p: usize) -> (k: i64)
    requires
        p < boxes@.len(),
    ensures
        k == spec_min_key(boxes@, axis, p as int),
{
    boxes[p].get_axis(axis).min.key()
}

/// Whether the primitives of `group` stand in the order of their lower
/// bounds on `axis`.
pub open spec fn sorted_on(group: Seq<usize>, boxes: Seq<AABB>, axis: Axis) -> bool {
    forall|i: int, j: int|
        0 <= i <= j < group.len() ==> spec_min_key(boxes, axis, group[i] as int) <= spec_min_key(
            boxes,
            axis,
            group[j] as int,
        )
}

/// Whether no primitive of `right` has a smaller lower bound on `axis` than
/// a primitive of `left`.
pub open spec fn halves_ordered(
    left: Seq<usize>,
    right: Seq<usize>,
    boxes: Seq<AABB>,
    axis: Axis,
) -> bool {
    forall|i: int, j: int|
        0 <= i < left.len() && 0 <= j < right.len() ==> spec_min_key(boxes, axis, left[i] as int)
            <= spec_min_key(boxes, axis, right[j] as int)
}

/// The box that bounds the primitives of `group`: the empty box combined
/// with the box of each of them in turn.
pub open spec fn group_box(group: Seq<usize>, boxes: Seq<AABB>) -> AABB
    decreases group.len(),
{
    if group.len() == 0 {
        AABB::spec_empty()
    } else {
        AABB::spec_combine(group_box(group.drop_last(), boxes), boxes[group.last() as int])
    }
}

/// The primitives `0..count` in the order of their indices.
pub open spec fn in_order(count: nat) -> Seq<usize> {
    Seq::new(count, |i: int| i as usize)
}

/// Sorts the primitives of `group` by the lower bound of their boxes on
/// `axis`, with `sort_unstable_by_key` of the standard library's slices. The
/// contract claims what its documentation promises: the slice afterwards
/// holds the same elements, in ascending order of their keys; the order of
/// elements with equal keys is left open.
#[verifier::external_body]
fn sort_by_min_bound(group: &mut Vec<usize>, boxes: &Vec<AABB>, axis: Axis)
    requires
        forall|i: int| 0 <= i < old(group)@.len() ==> old(group)@[i] < boxes@.len(),
    ensures
        final(group)@.to_multiset() == old(group)@.to_multiset(),
        sorted_on(final(group)@, boxes@, axis),
{
    group.sort_unstable_by_key(|p| min_key(boxes, axis, *p));
}

/// A hierarchy under construction: like the finished tree, but a node may
/// still be a group of primitives that awaits its split. A branch records
/// the axis on which it was split and whether a group is left below it.
#[derive(Debug)]
pub enum Draft {
    Leaf(usize),
    Pending(Vec<usize>),
    Branch { left: Box<Draft>, right: Box<Draft>, axis: Axis, open: bool },
}

impl Draft {
    /// The primitives below the node, from left to right.
    pub open spec fn contents(self) -> Seq<usize>
        decreases self,
    {
        match self {
            Draft::Leaf(p) => seq![p],
            Draft::Pending(group) => group@,
            Draft::Branch { left, right, .. } => left.contents() + right.contents(),
        }
    }

    /// Whether a group is left to split at or below the node.
    pub open spec fn spec_is_open(self) -> bool
        decreases self,
    {
        match self {
            Draft::Leaf(_) => false,
            Draft::Pending(_) => true,
            Draft::Branch { left, right, .. } => left.spec_is_open() || right.spec_is_open(),
        }
    }

    /// The number of splits that are still to be made: one less than the
    /// size of each group that is left.
    pub open spec fn work(self) -> nat
        decreases self,
    {
        match self {
            Draft::Leaf(_) => 0,
            Draft::Pending(group) => (group@.len() - 1) as nat,
            Draft::Branch { left, right, .. } => left.work() + right.work(),
        }
    }

    /// The leftmost group that is left to split; empty when there is none.
    pub open spec fn first_group(self) -> Seq<usize>
        decreases self,
    {
        match self {
            Draft::Leaf(_) => Seq::empty(),
            Draft::Pending(group) => group@,
            Draft::Branch { left, right, .. } => if left.spec_is_open() {
                left.first_group()
            } else {
                right.first_group()
            },
        }
    }

    /// The invariant of a draft over primitives with the given boxes. Every
    /// primitive has a box; a group holds at least two primitives; a branch
    /// has the first half of its primitives, rounded down, on the left, none
    /// of which has a greater lower bound on the branch's axis than one on
    /// the right; and `open` says whether a group is left below.
    pub open spec fn well_formed(self, boxes: Seq<AABB>) -> bool
        decreases self,
    {
        match self {
            Draft::Leaf(p) => p < boxes.len(),
            Draft::Pending(group) => group@.len() >= 2 && forall|i: int|
                0 <= i < group@.len() ==> group@[i] < boxes.len(),
            Draft::Branch { left, right, axis, open } => {
                &&& left.well_formed(boxes)
                &&& right.well_formed(boxes)
                &&& open == (left.spec_is_open() || right.spec_is_open())
                &&& left.contents().len() == (left.contents().len() + right.contents().len()) / 2
                &&& halves_ordered(left.contents(), right.contents(), boxes, axis)
            },
        }
    }

    /// Whether `after` is `before` with its leftmost group split on `axis`:
    /// the group sorted by lower bound on that axis, its first half, rounded
    /// down, on the left of a new branch and the rest on the right, each as
    /// a leaf if it is a single primitive and as a group otherwise. Nothing
    /// else differs.
    pub open spec fn refined_on(before: Draft, after: Draft, boxes: Seq<AABB>, axis: Axis) -> bool
        decreases before,
    {
        match before {
            Draft::Leaf(_) => false,
            Draft::Pending(group) => match after {
                Draft::Branch { left, right, axis: chosen, .. } => {
                    let sorted = left.contents() + right.contents();
                    &&& chosen == axis
                    &&& sorted.to_multiset() == group@.to_multiset()
                    &&& sorted_on(sorted, boxes, axis)
                    &&& left.contents().len() == group@.len() / 2
                    &&& !(*left is Branch)
                    &&& !(*right is Branch)
                },
                _ => false,
            },
            Draft::Branch { left, right, axis: kept, .. } => match after {
                Draft::Branch { left: new_left, right: new_right, axis: same, .. } => {
                    &&& same == kept
                    &&& if left.spec_is_open() {
                        Draft::refined_on(*left, *new_left, boxes, axis) && *new_right == *right
                    } else {
                        *new_left == *left && Draft::refined_on(*right, *new_right, boxes, axis)
                    }
                },
                _ => false,
            },
        }
    }

    /// Whether a group is left to split at or below the node.
    pub fn is_open(&self) -> (r: bool)
        requires
            self.well_formed_shallow(),
        ensures
            r == self.spec_is_open(),
    {
        match self {
            Draft::Leaf(_) => false,
            Draft::Pending(_) => true,
            Draft::Branch { open, .. } => *open,
        }
    }

    /// The part of the invariant that `open` rests on.
    pub open spec fn well_formed_shallow(self) -> bool {
        match self {
            Draft::Branch { left, right, open, .. } => open == (left.spec_is_open()
                || right.spec_is_open()),
            _ => true,
        }
    }

    /// The node for a group that needs no split decision yet: a leaf for one
    /// primitive, else the group itself.
    pub fn fresh(group: Vec<usize>, boxes: &Vec<AABB>) -> (r: Draft)
        requires
            group@.len() >= 1,
            forall|i: int| 0 <= i < group@.len() ==> group@[i] < boxes@.len(),
        ensures
            r.well_formed(boxes@),
            r.contents() == group@,
            !(r is Branch),
            r.spec_is_open() == (group@.len() >= 2),
            r.work() == group@.len() - 1,
    {
        if group.len() == 1 {
            let p = group[0];
            proof {
                assert(group@ =~= seq![p]);
            }
            Draft::Leaf(p)
        } else {
            Draft::Pending(group)
        }
    }

    /// The box that bounds the leftmost group that is left to split.
    pub fn first_group_box(&self, boxes: &Vec<AABB>) -> (r: AABB)
        requires
            self.well_formed(boxes@),
            self.spec_is_open(),
        ensures
            r == group_box(self.first_group(), boxes@),
        decreases self,
    {
        match self {
            Draft::Leaf(_) => AABB::empty(),
            Draft::Pending(group) => {
                let mut bbox = AABB::empty();
                let mut i: usize = 0;
                while i < group.len()
                    invariant
                        i <= group@.len(),
                        forall|k: int| 0 <= k < group@.len() ==> group@[k] < boxes@.len(),
                        bbox == group_box(group@.take(i as int), boxes@),
                    decreases group@.len() - i,
                {
                    proof {
                        assert(group@.take(i + 1).drop_last() == group@.take(i as int));
                    }
                    bbox = AABB::combine(&bbox, &boxes[group[i]]);
                    i = i + 1;
                }
                proof {
                    assert(group@.take(i as int) == group@);
                }
                bbox
            },
            Draft::Branch { left, right, .. } => {
                proof {
                    lemma_open_is_kept(**left, boxes@);
                }
                if left.is_open() {
                    left.first_group_box(boxes)
                } else {
                    right.first_group_box(boxes)
                }
            },
        }
    }

    /// Splits the leftmost group on `axis`.
    pub fn refine(self, boxes: &Vec<AABB>, axis: Axis) -> (r: Draft)
        requires
            self.well_formed(boxes@),
            self.spec_is_open(),
        ensures
            r.well_formed(boxes@),
            Draft::refined_on(self, r, boxes@, axis),
            r.contents().to_multiset() == self.contents().to_multiset(),
            r.work() + 1 == self.work(),
        decreases self,
    {
        match self {
            Draft::Leaf(p) => Draft::Leaf(p),
            Draft::Pending(group) => {
                let mut sorted = group;
                let ghost before = sorted@;
                sort_by_min_bound(&mut sorted, boxes, axis);
                let ghost whole = sorted@;
                proof {
                    lemma_same_elements(before, whole);
                }
                let mid = sorted.len() / 2;
                let upper = sorted.split_off(mid);
                proof {
                    assert(sorted@ + upper@ =~= whole);
                }
                let left = Draft::fresh(sorted, boxes);
                let right = Draft::fresh(upper, boxes);
                let open = left.is_open() || right.is_open();
                Draft::Branch { left: Box::new(left), right: Box::new(right), axis, open }
            },
            Draft::Branch { left, right, axis: kept, open } => {
                proof {
                    lemma_open_is_kept(*left, boxes@);
                    lemma_open_is_kept(*right, boxes@);
                }
                if left.is_open() {
                    let ghost old_left = left.contents();
                    let new_left = (*left).refine(boxes, axis);
                    proof {
                        lemma_same_elements(old_left, new_left.contents());
                        lemma_multiset_commutative(old_left, right.contents());
                        lemma_multiset_commutative(new_left.contents(), right.contents());
                    }
                    proof {
                        lemma_open_is_kept(new_left, boxes@);
                    }
                    let open = new_left.is_open() || right.is_open();
                    Draft::Branch { left: Box::new(new_left), right, axis: kept, open }
                } else {
                    let ghost old_right = right.contents();
                    let new_right = (*right).refine(boxes, axis);
                    proof {
                        lemma_same_elements(old_right, new_right.contents());
                        lemma_multiset_commutative(left.contents(), old_right);
                        lemma_multiset_commutative(left.contents(), new_right.contents());
                    }
                    proof {
                        lemma_open_is_kept(new_right, boxes@);
                    }
                    let open = left.is_open() || new_right.is_open();
                    Draft::Branch { left, right: Box::new(new_right), axis: kept, open }
                }
            },
        }
    }

    /// The finished tree of a draft in which no group is left: every leaf
    /// gets the box of its primitive and every branch the union of the boxes
    /// of its children.
    pub fn finish(self, boxes: &Vec<AABB>) -> (tree: BVH)
        requires
            self.well_formed(boxes@),
            !self.spec_is_open(),
        ensures
            tree.leaves() == self.contents(),
            tree.well_formed(boxes@),
            tree.is_split(boxes@),
            self matches Draft::Leaf(p) ==> tree.tree == BVHNode::Leaf(p) && tree.bbox == boxes@[p as int],
        decreases self,
    {
        match self {
            Draft::Leaf(p) => BVH::leaf(p, boxes[p]),
            Draft::Pending(_) => BVH::leaf(0, AABB::empty()),
            Draft::Branch { left, right, axis, .. } => {
                let l = (*left).finish(boxes);
                let r = (*right).finish(boxes);
                BVH::branch(l, r)
            },
        }
    }
}

/// In a well-formed draft every branch knows whether a group is left below
/// it.
pub proof fn lemma_open_is_kept(draft: Draft, boxes: Seq<AABB>)
    requires
        draft.well_formed(boxes),
    ensures
        draft.well_formed_shallow(),
        draft.contents().len() >= 1,
        draft.spec_is_open() <==> draft.work() > 0,
    decreases draft,
{
    match draft {
        Draft::Branch { left, right, .. } => {
            lemma_open_is_kept(*left, boxes);
            lemma_open_is_kept(*right, boxes);
        },
        _ => {},
    }
}

/// Two sequences with the same elements, each as often as in the other,
/// have the same length, and each element of one occurs in the other.
pub proof fn lemma_same_elements(a: Seq<usize>, b: Seq<usize>)
    requires
        a.to_multiset() == b.to_multiset(),
    ensures
        a.len() == b.len(),
        forall|i: int| 0 <= i < b.len() ==> a.contains(#[trigger] b[i]),
        forall|i: int| 0 <= i < a.len() ==> b.contains(#[trigger] a[i]),
{
    a.to_multiset_ensures();
    b.to_multiset_ensures();
    assert forall|i: int| 0 <= i < b.len() implies a.contains(#[trigger] b[i]) by {
        assert(b.contains(b[i]));
        assert(b.to_multiset().count(b[i]) > 0);
    }
    assert forall|i: int| 0 <= i < a.len() implies b.contains(#[trigger] a[i]) by {
        assert(a.contains(a[i]));
        assert(a.to_multiset().count(a[i]) > 0);
    }
}

/// The construction of a hierarchy in progress.
///
/// [`BvhBuilder::request`] hands out the box that bounds the group to be
/// split next; [`BvhBuilder::supply`] takes the extents of that box on the
/// three axes and splits the group; when no group is left,
/// [`BvhBuilder::finish`] gives the tree.
#[derive(Debug)]
pub struct BvhBuilder {
    pub boxes: Vec<AABB>,
    pub draft: Draft,
}

impl BvhBuilder {
    /// The draft is well-formed and holds every primitive exactly once.
    pub open spec fn well_formed(&self) -> bool {
        &&& self.draft.well_formed(self.boxes@)
        &&& self.draft.contents().to_multiset() == in_order(self.boxes@.len()).to_multiset()
    }

    /// Whether a group is left to split.
    pub open spec fn spec_is_open(&self) -> bool {
        self.draft.spec_is_open()
    }

    /// The number of splits that are still to be made.
    pub open spec fn work(&self) -> nat {
        self.draft.work()
    }

    /// Begins the construction over primitives with the given boxes. Without
    /// a primitive there is nothing to build, which is an error. A single
    /// primitive is a finished leaf; more are one group to split.
    pub fn new(boxes: Vec<AABB>) -> (r: Result<BvhBuilder, BvhError>)
        ensures
            boxes@.len() == 0 <==> r is Err,
            r is Err ==> r->Err_0 == BvhError::Empty,
            r is Ok ==> r->Ok_0.boxes == boxes && r->Ok_0.well_formed() && r->Ok_0.draft.contents()
                == in_order(boxes@.len()) && !(r->Ok_0.draft is Branch),
            r is Ok ==> r->Ok_0.work() == boxes@.len() - 1 && (r->Ok_0.spec_is_open() <==> boxes@.len()
                >= 2),
            boxes@.len() == 1 ==> r is Ok && r->Ok_0.draft == Draft::Leaf(0),
    {
        let n = boxes.len();
        if n == 0 {
            return Err(BvhError::Empty);
        }
        let mut group: Vec<usize> = Vec::new();
        let mut i: usize = 0;
        while i < n
            invariant
                i <= n,
                group@ == in_order(i as nat),
            decreases n - i,
        {
            group.push(i);
            i = i + 1;
            proof {
                assert(group@ =~= in_order(i as nat));
            }
        }
        let draft = Draft::fresh(group, &boxes);
        Ok(BvhBuilder { boxes, draft })
    }

    /// Whether a group is left to split.
    pub fn is_open(&self) -> (r: bool)
        requires
            self.well_formed(),
        ensures
            r == self.spec_is_open(),
            r == (self.work() > 0),
    {
        proof {
            lemma_open_is_kept(self.draft, self.boxes@);
        }
        self.draft.is_open()
    }

    /// The box that bounds the group to be split next, whose extents are
    /// wanted; `None` when no group is left.
    pub fn request(&self) -> (r: Option<AABB>)
        requires
            self.well_formed(),
        ensures
            self.spec_is_open() ==> r == Some(group_box(self.draft.first_group(), self.boxes@)),
            !self.spec_is_open() ==> r.is_none(),
    {
        if self.is_open() {
            Some(self.draft.first_group_box(&self.boxes))
        } else {
            None
        }
    }

    /// Splits the group whose box was requested, given the extents of that
    /// box: on the axis that [`AABB::get_longest_axis`] picks for them.
    pub fn supply(self, x_size: Scalar, y_size: Scalar, z_size: Scalar) -> (r: BvhBuilder)
        requires
            self.well_formed(),
            self.spec_is_open(),
        ensures
            r.well_formed(),
            r.boxes == self.boxes,
            Draft::refined_on(
                self.draft,
                r.draft,
                self.boxes@,
                AABB::spec_longest_axis(x_size, y_size, z_size),
            ),
            r.work() + 1 == self.work(),
            r.spec_is_open() <==> r.work() > 0,
    {
        let axis = AABB::get_longest_axis(x_size, y_size, z_size);
        let draft = self.draft.refine(&self.boxes, axis);
        proof {
            lemma_open_is_kept(draft, self.boxes@);
        }
        BvhBuilder { boxes: self.boxes, draft }
    }

    /// The finished hierarchy. It holds every primitive exactly once, the
    /// box of each leaf is the box of its primitive, the box of each branch
    /// is the union of the boxes of its children, and every branch is split
    /// in the middle of an ordering by lower bound.
    pub fn finish(self) -> (tree: BVH)
        requires
            self.well_formed(),
            !self.spec_is_open(),
        ensures
            tree.leaves() == self.draft.contents(),
            tree.well_formed(self.boxes@),
            tree.is_split(self.boxes@),
            tree.leaves().to_multiset() == in_order(self.boxes@.len()).to_multiset(),
            tree.members() == first(self.boxes@.len() as int),
            self.boxes@.len() == 1 ==> tree.tree == BVHNode::Leaf(0) && tree.bbox == self.boxes@[0],
    {
        proof {
            lemma_same_elements(in_order(self.boxes@.len()), self.draft.contents());
            if self.boxes@.len() == 1 {
                lemma_single_is_leaf(self.draft, self.boxes@);
                assert(in_order(1)[0] == 0);
                assert(in_order(1).contains(self.draft.contents()[0]));
            }
        }
        let count = self.boxes.len();
        let tree = self.draft.finish(&self.boxes);
        proof {
            let n = self.boxes@.len();
            let order = in_order(n);
            let leaves = tree.leaves();
            crate::bvh::lemma_members_are_leaves(tree);
            lemma_same_elements(order, leaves);
            assert forall|p: int| tree.members().contains(p) implies first(n as int).contains(
                p,
            ) by {
                let q = p as usize;
                assert(leaves.contains(q));
                let i = choose|i: int| 0 <= i < leaves.len() && leaves[i] == q;
                assert(order.contains(leaves[i]));
                let j = choose|j: int| 0 <= j < order.len() && order[j] == q;
                assert(order[j] == j as usize);
            }
            assert forall|p: int| first(n as int).contains(p) implies tree.members().contains(
                p,
            ) by {
                assert(order[p] == p as usize);
                assert(leaves.contains(order[p]));
            }
            assert(tree.members() =~= first(n as int));
        }
        tree
    }
}

/// A draft that holds a single primitive is a leaf.
pub proof fn lemma_single_is_leaf(draft: Draft, boxes: Seq<AABB>)
    requires
        draft.well_formed(boxes),
        draft.contents().len() == 1,
    ensures
        draft is Leaf,
        draft == Draft::Leaf(draft.contents()[0]),
{
    match draft {
        Draft::Branch { left, right, .. } => {
            lemma_open_is_kept(*left, boxes);
            lemma_open_is_kept(*right, boxes);
        },
        _ => {},
    }
}

impl BVH {
    /// Begins the construction of the hierarchy over the objects of a scene;
    /// an empty scene is an error.
    pub fn new(entities: EntityList) -> (r: Result<BvhBuilder, BvhError>)
        ensures
            entities.list@.len() == 0 <==> r is Err,
            r is Err ==> r->Err_0 == BvhError::Empty,
            r is Ok ==> r->Ok_0.boxes == entities.list && r->Ok_0.well_formed()
                && r->Ok_0.draft.contents() == in_order(entities.list@.len()) && !(r->Ok_0.draft
                is Branch),
            r is Ok ==> r->Ok_0.work() == entities.list@.len() - 1 && (r->Ok_0.spec_is_open()
                <==> entities.list@.len() >= 2),
            entities.list@.len() == 1 ==> r is Ok && r->Ok_0.draft == Draft::Leaf(0),
    {
        BvhBuilder::new(entities.list)
    }
}

} // verus!
