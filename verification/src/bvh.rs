//! The bounding-volume hierarchy: a binary tree of boxes over the
//! primitives of a scene, and the nearest-hit search that prunes with it.
use vstd::prelude::*;
use crate::aabb::AABB;
use crate::entity::{first, lemma_list_hit_is_nearest, spec_scan};
use crate::hit::HitRecord;
use crate::interval::Interval;
use crate::scalar::Scalar;
use crate::search::{
    answers_nearest,
    bounds_admit,
    is_nearest,
    lemma_accept_keeps_nearest,
    lemma_nearest_agree,
    lemma_skip_keeps_nearest,
    Best,
};

verus! {

/// What a node holds: two subtrees, or one primitive by its index.
#[derive(Debug)]
pub enum BVHNode {
    Branch { left: Box<BVH>, right: Box<BVH> },
    Leaf(usize),
}

/// A node with the box that bounds everything below it.
#[derive(Debug)]
pub struct BVH {
    pub tree: BVHNode,
    pub bbox: AABB,
}

impl BVH {
    /// The primitives below the node, from left to right.
    pub open spec fn leaves(self) -> Seq<usize>
        decreases self,
    {
        match self.tree {
            BVHNode::Leaf(p) => seq![p],
            BVHNode::Branch { left, right } => left.leaves() + right.leaves(),
        }
    }

    /// The primitives below the node, as a set.
    pub open spec fn members(self) -> Set<int>
        decreases self,
    {
        match self.tree {
            BVHNode::Leaf(p) => set![p as int],
            BVHNode::Branch { left, right } => left.members().union(right.members()),
        }
    }

    /// The invariant of the hierarchy over primitives with the given boxes:
    /// the box of a leaf is the box of its primitive, and the box of a
    /// branch is the union of the boxes of its two children.
    pub open spec fn well_formed(self, boxes: Seq<AABB>) -> bool
        decreases self,
    {
        match self.tree {
            BVHNode::Leaf(p) => p < boxes.len() && self.bbox == boxes[p as int],
            BVHNode::Branch { left, right } => {
                &&& self.bbox == AABB::spec_combine(left.bbox, right.bbox)
                &&& left.well_formed(boxes)
                &&& right.well_formed(boxes)
            },
        }
    }

    /// The nearest-hit search below this node, continuing from `best`. A
    /// node whose box the ray misses within the current window is passed
    /// over. A leaf asks its primitive. A branch searches its left child and
    /// then, in the window that this has left, its right child.
    pub open spec fn spec_walk(
        self,
        pass: spec_fn(AABB, Interval) -> bool,
        test: spec_fn(int, Interval) -> Option<HitRecord>,
        min: Scalar,
        best: Best,
    ) -> Best
        decreases self,
    {
        if !pass(self.bbox, best.spec_window(min)) {
            best
        } else {
            match self.tree {
                BVHNode::Leaf(p) => best.spec_accept(test(p as int, best.spec_window(min))),
                BVHNode::Branch { left, right } => right.spec_walk(
                    pass,
                    test,
                    min,
                    left.spec_walk(pass, test, min, best),
                ),
            }
        }
    }

    /// The nearest hit below this node within `window`, as the search finds
    /// it.
    pub open spec fn spec_hit(
        self,
        window: Interval,
        pass: spec_fn(AABB, Interval) -> bool,
        test: spec_fn(int, Interval) -> Option<HitRecord>,
    ) -> Option<HitRecord> {
        self.spec_walk(pass, test, window.min, Best::spec_start(window.max)).record
    }

    /// Whether the box of every node admits every ray that hits a primitive
    /// below the node, so that pruning loses no hit.
    pub open spec fn admits(
        self,
        pass: spec_fn(AABB, Interval) -> bool,
        test: spec_fn(int, Interval) -> Option<HitRecord>,
    ) -> bool
        decreases self,
    {
        &&& forall|p: int| self.members().contains(p) ==> bounds_admit(pass, test, self.bbox, p)
        &&& match self.tree {
            BVHNode::Leaf(_) => true,
            BVHNode::Branch { left, right } => left.admits(pass, test) && right.admits(pass, test),
        }
    }

    /// Whether every branch has the first half of its primitives, rounded
    /// down, on the left, and an axis on which no primitive on the right has
    /// a smaller lower bound than one on the left.
    pub open spec fn is_split(self, boxes: Seq<AABB>) -> bool
        decreases self,
    {
        match self.tree {
            BVHNode::Leaf(_) => true,
            BVHNode::Branch { left, right } => {
                &&& left.leaves().len() == (left.leaves().len() + right.leaves().len()) / 2
                &&& exists|axis: crate::vec3::Axis|
                    crate::builder::halves_ordered(left.leaves(), right.leaves(), boxes, axis)
                &&& left.is_split(boxes)
                &&& right.is_split(boxes)
            },
        }
    }

    /// The number of questions that a search below this node asks at most:
    /// two at a leaf, one at a branch beside those of its children.
    pub open spec fn weight(self) -> nat
        decreases self,
    {
        match self.tree {
            BVHNode::Leaf(_) => 2,
            BVHNode::Branch { left, right } => 1 + left.weight() + right.weight(),
        }
    }

    /// The hierarchy of one primitive: a leaf with the primitive's box.
    pub fn leaf(index: usize, bbox: AABB) -> (r: BVH)
        ensures
            r.tree == BVHNode::Leaf(index),
            r.bbox == bbox,
            r.leaves() == seq![index],
    {
        BVH { tree: BVHNode::Leaf(index), bbox }
    }

    /// The hierarchy over two hierarchies; its box is the union of theirs.
    pub fn branch(left: BVH, right: BVH) -> (r: BVH)
        ensures
            r.tree == (BVHNode::Branch { left: Box::new(left), right: Box::new(right) }),
            r.bbox == AABB::spec_combine(left.bbox, right.bbox),
            r.leaves() == left.leaves() + right.leaves(),
    {
        let bbox = AABB::combine(&left.bbox, &right.bbox);
        BVH { tree: BVHNode::Branch { left: Box::new(left), right: Box::new(right) }, bbox }
    }

    /// The box that bounds the hierarchy, as it is kept.
    pub fn get_aabb(&self) -> (r: AABB)
        ensures
            r == self.bbox,
    {
        self.bbox
    }

    /// The box that bounds the hierarchy, computed anew from the children of
    /// the root; at a leaf, `leaf_box` is the box of the leaf's primitive.
    pub fn compute_aabb(&self, leaf_box: AABB) -> (r: AABB)
        ensures
            r == match self.tree {
                BVHNode::Leaf(_) => leaf_box,
                BVHNode::Branch { left, right } => AABB::spec_combine(right.bbox, left.bbox),
            },
    {
        match &self.tree {
            BVHNode::Leaf(_) => leaf_box,
            BVHNode::Branch { left, right } => AABB::combine(&right.bbox, &left.bbox),
        }
    }

    /// Begins the search for the nearest hit within `t_interval`.
    pub fn hit<'a>(&'a self, t_interval: &Interval) -> (walk: Traversal<'a>)
        ensures
            walk.well_formed(),
            walk.remaining() == self.weight(),
            walk.stack@ == seq![self],
            !walk.admitted,
            walk.min == t_interval.min,
            walk.best == Best::spec_start(t_interval.max),
    {
        let mut stack: Vec<&'a BVH> = Vec::new();
        stack.push(self);
        proof {
            assert(stack@.drop_last().len() == 0);
            assert(stack_weight(stack@.drop_last()) == 0);
        }
        Traversal { stack, admitted: false, min: t_interval.min, best: Best::start(t_interval.max) }
    }
}

/// What a search in the hierarchy asks next.
#[derive(Debug, Clone, Copy, PartialEq, Eq, Structural)]
pub enum Probe {
    /// Does the ray pass this box within this window?
    Bounds(AABB, Interval),
    /// Where does the ray hit this primitive within this window?
    Primitive(usize, Interval),
    /// Nothing: the search is over.
    Done,
}

/// A search in the hierarchy in progress: the nodes still to be searched,
/// the next one last, and the closest hit so far. `admitted` says that the
/// next node is a leaf whose box the ray has passed, so that its primitive
/// is asked next.
#[derive(Debug)]
pub struct Traversal<'a> {
    pub stack: Vec<&'a BVH>,
    pub admitted: bool,
    pub min: Scalar,
    pub best: Best,
}

/// The outcome of searching the nodes of `stack`, the last one first, when
/// boxes and primitives answer as `pass` and `test` say.
pub open spec fn spec_rest(
    stack: Seq<&BVH>,
    admitted: bool,
    pass: spec_fn(AABB, Interval) -> bool,
    test: spec_fn(int, Interval) -> Option<HitRecord>,
    min: Scalar,
    best: Best,
) -> Best
    decreases stack.len(),
{
    if stack.len() == 0 {
        best
    } else {
        let top = stack.last();
        let after = if admitted {
            match top.tree {
                BVHNode::Leaf(p) => best.spec_accept(test(p as int, best.spec_window(min))),
                BVHNode::Branch { .. } => best,
            }
        } else {
            top.spec_walk(pass, test, min, best)
        };
        spec_rest(stack.drop_last(), false, pass, test, min, after)
    }
}

/// The number of questions that searching the nodes of `stack` asks at
/// most.
pub open spec fn stack_weight(stack: Seq<&BVH>) -> nat
    decreases stack.len(),
{
    if stack.len() == 0 {
        0
    } else {
        stack_weight(stack.drop_last()) + stack.last().weight()
    }
}

impl<'a> Traversal<'a> {
    /// The number of questions that the search asks at most from here on.
    /// Every answer lowers it, so that every search ends.
    pub open spec fn remaining(&self) -> int {
        stack_weight(self.stack@) - if self.admitted {
            1int
        } else {
            0int
        }
    }

    /// `admitted` is set only while the next node is a leaf.
    pub open spec fn well_formed(&self) -> bool {
        self.admitted ==> self.stack@.len() > 0 && self.stack@.last().tree is Leaf
    }

    /// Where the search ends when every box and primitive still to be asked
    /// answers as `pass` and `test` say.
    pub open spec fn spec_outcome(
        &self,
        pass: spec_fn(AABB, Interval) -> bool,
        test: spec_fn(int, Interval) -> Option<HitRecord>,
    ) -> Best {
        spec_rest(self.stack@, self.admitted, pass, test, self.min, self.best)
    }

    /// What the search asks next.
    pub open spec fn spec_probe(&self) -> Probe {
        if self.stack@.len() == 0 {
            Probe::Done
        } else {
            let top = self.stack@.last();
            match top.tree {
                BVHNode::Leaf(p) if self.admitted => Probe::Primitive(
                    p,
                    self.best.spec_window(self.min),
                ),
                _ => Probe::Bounds(top.bbox, self.best.spec_window(self.min)),
            }
        }
    }

    /// What the search asks next: whether the ray passes the box of the next
    /// node, where it hits the primitive of an admitted leaf, or nothing.
    pub fn probe(&self) -> (p: Probe)
        requires
            self.well_formed(),
        ensures
            p == self.spec_probe(),
    {
        let n = self.stack.len();
        if n == 0 {
            Probe::Done
        } else {
            let top = self.stack[n - 1];
            match &top.tree {
                BVHNode::Leaf(p) => {
                    if self.admitted {
                        Probe::Primitive(*p, self.best.window(self.min))
                    } else {
                        Probe::Bounds(top.bbox, self.best.window(self.min))
                    }
                },
                BVHNode::Branch { .. } => Probe::Bounds(top.bbox, self.best.window(self.min)),
            }
        }
    }

    /// Takes the answer to a [`Probe::Bounds`]. A node whose box the ray
    /// misses is dropped with everything below it. A leaf whose box the ray
    /// passes is admitted. A branch whose box the ray passes is replaced by
    /// its children, the left one to be searched first.
    pub fn answer_bounds(&mut self, passed: bool)
        requires
            old(self).well_formed(),
            old(self).stack@.len() > 0,
            !old(self).admitted,
        ensures
            final(self).well_formed(),
            final(self).min == old(self).min,
            final(self).best == old(self).best,
            0 <= final(self).remaining() < old(self).remaining(),
            !passed ==> final(self).stack@ == old(self).stack@.drop_last() && !final(self).admitted,
            passed ==> match old(self).stack@.last().tree {
                BVHNode::Leaf(_) => final(self).stack@ == old(self).stack@ && final(self).admitted,
                BVHNode::Branch { left, right } => final(self).stack@ == old(
                    self,
                ).stack@.drop_last().push(&*right).push(&*left) && !final(self).admitted,
            },
    {
        let n = self.stack.len();
        let top: &'a BVH = self.stack[n - 1];
        let ghost before = self.stack@;
        proof {
            lemma_weight_is_positive(before);
            lemma_weight_is_positive(before.drop_last());
            assert(stack_weight(before) == stack_weight(before.drop_last()) + top.weight());
        }
        if !passed {
            self.stack.pop();
            proof {
                assert(self.stack@ == before.drop_last());
            }
        } else {
            match &top.tree {
                BVHNode::Leaf(_) => {
                    self.admitted = true;
                },
                BVHNode::Branch { left, right } => {
                    self.stack.pop();
                    let ghost rest = self.stack@;
                    self.stack.push(&**right);
                    let ghost one = self.stack@;
                    self.stack.push(&**left);
                    proof {
                        assert(rest == before.drop_last());
                        assert(one.drop_last() == rest);
                        assert(one.last() == &**right);
                        assert(self.stack@.drop_last() == one);
                        assert(self.stack@.last() == &**left);
                        assert(stack_weight(one) == stack_weight(rest) + right.weight());
                        assert(stack_weight(self.stack@) == stack_weight(one) + left.weight());
                        assert(top.weight() == 1 + left.weight() + right.weight());
                    }
                },
            }
        }
        proof {
            lemma_weight_is_positive(self.stack@);
        }
    }

    /// Takes the answer to a [`Probe::Primitive`]: a hit becomes the closest
    /// so far and narrows the window for every node still to be searched.
    pub fn answer_primitive(&mut self, answer: Option<HitRecord>)
        requires
            old(self).well_formed(),
            old(self).admitted,
        ensures
            final(self).well_formed(),
            !final(self).admitted,
            0 <= final(self).remaining() < old(self).remaining(),
            final(self).stack@ == old(self).stack@.drop_last(),
            final(self).min == old(self).min,
            final(self).best == old(self).best.spec_accept(answer),
    {
        let ghost before = self.stack@;
        proof {
            lemma_weight_is_positive(before);
            lemma_weight_is_positive(before.drop_last());
            assert(stack_weight(before) == stack_weight(before.drop_last())
                + before.last().weight());
            assert(before.last().weight() == 2);
        }
        self.stack.pop();
        self.admitted = false;
        self.best = self.best.accept(answer);
        proof {
            lemma_weight_is_positive(self.stack@);
        }
    }

    /// The closest hit found so far: once nothing is left to ask, the result
    /// of the search.
    pub fn result(&self) -> (r: Option<HitRecord>)
        ensures
            r == self.best.record,
            self.stack@.len() == 0 ==> forall|
                pass: spec_fn(AABB, Interval) -> bool,
                test: spec_fn(int, Interval) -> Option<HitRecord>,
            | r == (#[trigger] self.spec_outcome(pass, test)).record,
    {
        self.best.record
    }
}

/// Every node weighs at least two questions, and a stack weighs at least as
/// much as its last node.
pub proof fn lemma_weight_is_positive(stack: Seq<&BVH>)
    ensures
        0 <= stack_weight(stack),
        stack.len() > 0 ==> stack_weight(stack) >= stack.last().weight() >= 2,
    decreases stack.len(),
{
    if stack.len() > 0 {
        lemma_node_weight(*stack.last());
        lemma_weight_is_positive(stack.drop_last());
    }
}

/// Every node weighs at least two questions.
pub proof fn lemma_node_weight(tree: BVH)
    ensures
        tree.weight() >= 2,
    decreases tree,
{
    match tree.tree {
        BVHNode::Leaf(_) => {},
        BVHNode::Branch { left, right } => {
            lemma_node_weight(*left);
            lemma_node_weight(*right);
        },
    }
}

/// A search that has just begun will end where the walk of the whole tree
/// ends.
pub proof fn lemma_outcome_at_start(
    tree: &BVH,
    pass: spec_fn(AABB, Interval) -> bool,
    test: spec_fn(int, Interval) -> Option<HitRecord>,
    min: Scalar,
    best: Best,
)
    ensures
        spec_rest(seq![tree], false, pass, test, min, best) == tree.spec_walk(pass, test, min, best),
{
    let stack = seq![tree];
    assert(stack.last() == tree);
    assert(stack.drop_last().len() == 0);
    let after = tree.spec_walk(pass, test, min, best);
    assert(spec_rest(stack.drop_last(), false, pass, test, min, after) == after);
}

/// An answer to a box probe that agrees with `pass` moves the search along
/// the path that `pass` and `test` prescribe: the outcome stays the same.
pub proof fn lemma_bounds_answer_follows(
    stack: Seq<&BVH>,
    pass: spec_fn(AABB, Interval) -> bool,
    test: spec_fn(int, Interval) -> Option<HitRecord>,
    min: Scalar,
    best: Best,
)
    requires
        stack.len() > 0,
    ensures
        spec_rest(stack, false, pass, test, min, best) == if !pass(
            stack.last().bbox,
            best.spec_window(min),
        ) {
            spec_rest(stack.drop_last(), false, pass, test, min, best)
        } else {
            match stack.last().tree {
                BVHNode::Leaf(_) => spec_rest(stack, true, pass, test, min, best),
                BVHNode::Branch { left, right } => spec_rest(
                    stack.drop_last().push(&*right).push(&*left),
                    false,
                    pass,
                    test,
                    min,
                    best,
                ),
            }
        },
{
    let top = stack.last();
    if pass(top.bbox, best.spec_window(min)) {
        match top.tree {
            BVHNode::Leaf(_) => {},
            BVHNode::Branch { left, right } => {
                let rest = stack.drop_last();
                let one = rest.push(&*right);
                let two = one.push(&*left);
                assert(two.last() == &*left);
                assert(two.drop_last() == one);
                assert(one.last() == &*right);
                assert(one.drop_last() == rest);
                let mid = left.spec_walk(pass, test, min, best);
                assert(spec_rest(two, false, pass, test, min, best) == spec_rest(
                    one,
                    false,
                    pass,
                    test,
                    min,
                    mid,
                ));
                assert(spec_rest(one, false, pass, test, min, mid) == spec_rest(
                    rest,
                    false,
                    pass,
                    test,
                    min,
                    right.spec_walk(pass, test, min, mid),
                ));
            },
        }
    }
}

/// An answer to a primitive probe that agrees with `test` moves the search
/// along the path that `pass` and `test` prescribe.
pub proof fn lemma_primitive_answer_follows(
    stack: Seq<&BVH>,
    pass: spec_fn(AABB, Interval) -> bool,
    test: spec_fn(int, Interval) -> Option<HitRecord>,
    min: Scalar,
    best: Best,
)
    requires
        stack.len() > 0,
        stack.last().tree is Leaf,
    ensures
        spec_rest(stack, true, pass, test, min, best) == spec_rest(
            stack.drop_last(),
            false,
            pass,
            test,
            min,
            best.spec_accept(test(stack.last().tree->Leaf_0 as int, best.spec_window(min))),
        ),
{
}

/// The search below a node finds a nearest hit: from a state that is
/// nearest for the primitives in `seen`, it ends in a state that is nearest
/// for those and all primitives below the node.
pub proof fn lemma_walk_is_nearest(
    tree: BVH,
    pass: spec_fn(AABB, Interval) -> bool,
    test: spec_fn(int, Interval) -> Option<HitRecord>,
    seen: Set<int>,
    window: Interval,
    best: Best,
)
    requires
        is_nearest(test, seen, window, best),
        tree.admits(pass, test),
        forall|p: int| tree.members().contains(p) ==> answers_nearest(test, p, window.min),
    ensures
        is_nearest(
            test,
            seen.union(tree.members()),
            window,
            tree.spec_walk(pass, test, window.min, best),
        ),
    decreases tree,
{
    let min = window.min;
    if !pass(tree.bbox, best.spec_window(min)) {
        assert forall|p: int| tree.members().contains(p) implies (#[trigger] test(
            p,
            best.spec_window(min),
        )).is_none() by {
            assert(bounds_admit(pass, test, tree.bbox, p));
        }
        lemma_skip_keeps_nearest(test, seen, tree.members(), window, best);
    } else {
        match tree.tree {
            BVHNode::Leaf(p) => {
                assert(tree.members().contains(p as int));
                lemma_accept_keeps_nearest(test, seen, window, best, p as int);
                assert(seen.insert(p as int) =~= seen.union(tree.members()));
            },
            BVHNode::Branch { left, right } => {
                assert forall|p: int| left.members().contains(p) implies answers_nearest(
                    test,
                    p,
                    min,
                ) by {
                    assert(tree.members().contains(p));
                }
                assert forall|p: int| right.members().contains(p) implies answers_nearest(
                    test,
                    p,
                    min,
                ) by {
                    assert(tree.members().contains(p));
                }
                lemma_walk_is_nearest(*left, pass, test, seen, window, best);
                let mid = left.spec_walk(pass, test, min, best);
                lemma_walk_is_nearest(
                    *right,
                    pass,
                    test,
                    seen.union(left.members()),
                    window,
                    mid,
                );
                assert(seen.union(left.members()).union(right.members()) =~= seen.union(
                    tree.members(),
                ));
            },
        }
    }
}

/// The hierarchy and the flat list find the same nearest hit. For objects
/// `0..count` that answer like surfaces and a hierarchy over exactly these
/// objects whose boxes admit them, the two searches agree on every window:
/// both hit or both miss, and their hits lie at the same ray parameter.
pub proof fn lemma_hierarchy_agrees_with_list(
    tree: BVH,
    count: int,
    pass: spec_fn(AABB, Interval) -> bool,
    test: spec_fn(int, Interval) -> Option<HitRecord>,
    window: Interval,
)
    requires
        0 <= count,
        !window.max.spec_is_nan(),
        tree.members() == first(count),
        tree.admits(pass, test),
        forall|p: int| 0 <= p < count ==> answers_nearest(test, p, window.min),
    ensures
        tree.spec_hit(window, pass, test).is_some() == crate::entity::EntityList::spec_hit(
            count,
            window,
            test,
        ).is_some(),
        tree.spec_hit(window, pass, test).is_some() ==> tree.spec_hit(
            window,
            pass,
            test,
        ).unwrap().t.spec_same(
            crate::entity::EntityList::spec_hit(count, window, test).unwrap().t,
        ),
{
    let start = Best::spec_start(window.max);
    let none: Set<int> = Set::empty();
    assert(is_nearest(test, none, window, start));
    lemma_walk_is_nearest(tree, pass, test, none, window, start);
    assert(none.union(tree.members()) =~= first(count));
    lemma_list_hit_is_nearest(test, count, window);
    lemma_nearest_agree(
        test,
        first(count),
        window,
        tree.spec_walk(pass, test, window.min, start),
        spec_scan(test, 0, count, window.min, start),
    );
}

/// Where no two objects are hit at the same parameter, the hierarchy and
/// the flat list return the same record.
pub proof fn lemma_hierarchy_agrees_exactly(
    tree: BVH,
    count: int,
    pass: spec_fn(AABB, Interval) -> bool,
    test: spec_fn(int, Interval) -> Option<HitRecord>,
    window: Interval,
)
    requires
        0 <= count,
        !window.max.spec_is_nan(),
        tree.members() == first(count),
        tree.admits(pass, test),
        forall|p: int| 0 <= p < count ==> answers_nearest(test, p, window.min),
        forall|p: int, q: int|
            0 <= p < count && 0 <= q < count && p != q && (#[trigger] test(p, window)).is_some()
                && (#[trigger] test(q, window)).is_some() ==> !test(p, window).unwrap().t.spec_same(
                test(q, window).unwrap().t,
            ),
    ensures
        tree.spec_hit(window, pass, test) == crate::entity::EntityList::spec_hit(
            count,
            window,
            test,
        ),
{
    let start = Best::spec_start(window.max);
    let none: Set<int> = Set::empty();
    assert(is_nearest(test, none, window, start));
    lemma_walk_is_nearest(tree, pass, test, none, window, start);
    assert(none.union(tree.members()) =~= first(count));
    lemma_list_hit_is_nearest(test, count, window);
    crate::search::lemma_nearest_agree_exactly(
        test,
        first(count),
        window,
        tree.spec_walk(pass, test, window.min, start),
        spec_scan(test, 0, count, window.min, start),
    );
}

/// In a hierarchy of one primitive the search is the primitive's own test
/// behind the box test, whatever the two answer: where the ray passes the
/// box within the window, the result is what the primitive answers in that
/// very window, and where it does not, the search misses.
pub proof fn lemma_single_leaf_hit(
    tree: BVH,
    pass: spec_fn(AABB, Interval) -> bool,
    test: spec_fn(int, Interval) -> Option<HitRecord>,
    window: Interval,
)
    requires
        tree.tree is Leaf,
    ensures
        tree.spec_hit(window, pass, test) == if pass(tree.bbox, window) {
            test(tree.tree->Leaf_0 as int, window)
        } else {
            None
        },
{
    let start = Best::spec_start(window.max);
    assert(start.spec_window(window.min) == window);
}

/// The search in the hierarchy invents nothing, whatever boxes and
/// primitives answer: a record that it holds is what one of the primitives
/// seen so far or below the node has answered in a window from `min`.
pub proof fn lemma_walk_holds_an_answer(
    tree: BVH,
    pass: spec_fn(AABB, Interval) -> bool,
    test: spec_fn(int, Interval) -> Option<HitRecord>,
    seen: Set<int>,
    min: Scalar,
    best: Best,
)
    requires
        crate::search::holds_an_answer(test, seen, min, best),
    ensures
        crate::search::holds_an_answer(
            test,
            seen.union(tree.members()),
            min,
            tree.spec_walk(pass, test, min, best),
        ),
    decreases tree,
{
    let all = seen.union(tree.members());
    if !pass(tree.bbox, best.spec_window(min)) {
        crate::search::lemma_answer_among_more(test, seen, all, min, best);
    } else {
        match tree.tree {
            BVHNode::Leaf(p) => {
                crate::search::lemma_accept_holds_an_answer(test, seen, min, best, p as int);
                assert(seen.insert(p as int) =~= all);
            },
            BVHNode::Branch { left, right } => {
                lemma_walk_holds_an_answer(*left, pass, test, seen, min, best);
                let mid = left.spec_walk(pass, test, min, best);
                lemma_walk_holds_an_answer(
                    *right,
                    pass,
                    test,
                    seen.union(left.members()),
                    min,
                    mid,
                );
                assert(seen.union(left.members()).union(right.members()) =~= all);
            },
        }
    }
}

/// A hit of the search in the hierarchy is an answer of one of its
/// primitives, whatever boxes and primitives answer.
pub proof fn lemma_hierarchy_hit_is_an_answer(
    tree: BVH,
    pass: spec_fn(AABB, Interval) -> bool,
    test: spec_fn(int, Interval) -> Option<HitRecord>,
    window: Interval,
)
    ensures
        tree.spec_hit(window, pass, test) matches Some(r) ==> exists|p: int, max: Scalar|
            tree.members().contains(p) && #[trigger] test(p, Interval { min: window.min, max })
                == Some(r),
{
    let start = Best::spec_start(window.max);
    let none: Set<int> = Set::empty();
    assert(crate::search::holds_an_answer(test, none, window.min, start));
    lemma_walk_holds_an_answer(tree, pass, test, none, window.min, start);
    assert(none.union(tree.members()) =~= tree.members());
    let end = tree.spec_walk(pass, test, window.min, start);
    if end.record.is_some() {
        let r = end.record.unwrap();
        let (p, max) = choose|p: int, max: Scalar|
            tree.members().contains(p) && #[trigger] test(p, Interval { min: window.min, max })
                == Some(r);
        assert(tree.members().contains(p) && test(p, Interval { min: window.min, max }) == Some(
            r,
        ));
    }
}

/// In a hierarchy of one primitive the search asks that primitive in the
/// window it was given: provided the box admits the primitive, the result is
/// what the primitive itself answers.
pub proof fn lemma_single_leaf_delegates(
    tree: BVH,
    pass: spec_fn(AABB, Interval) -> bool,
    test: spec_fn(int, Interval) -> Option<HitRecord>,
    window: Interval,
)
    requires
        tree.tree is Leaf,
        bounds_admit(pass, test, tree.bbox, tree.tree->Leaf_0 as int),
    ensures
        tree.spec_hit(window, pass, test) == test(tree.tree->Leaf_0 as int, window),
{
    let start = Best::spec_start(window.max);
    assert(start.spec_window(window.min) == window);
}

/// A box test is monotone when a ray that passes a box passes every box
/// that encloses it, within the same window.
pub open spec fn pass_grows(pass: spec_fn(AABB, Interval) -> bool) -> bool {
    forall|inner: AABB, outer: AABB, window: Interval|
        #![trigger pass(inner, window), outer.spec_encloses(inner)]
        pass(inner, window) && outer.spec_encloses(inner) ==> pass(outer, window)
}

/// Whether the slab of an interval is made of numbers and covers the slab
/// of every interval that the first encloses: what the arithmetic of a ray
/// that lies in no face plane provides on each axis.
pub open spec fn slab_grows(slab_of: spec_fn(Interval) -> crate::aabb::Slab) -> bool {
    forall|inner: Interval, outer: Interval|
        #![trigger slab_of(inner), slab_of(outer)]
        outer.min.spec_le(inner.min) && inner.max.spec_le(outer.max) ==> slab_of(inner).is_numeric()
            && slab_of(outer).is_numeric() && slab_of(outer).spec_covers(slab_of(inner))
}

/// The slab test is a monotone box test. Where the slabs of a ray grow with
/// the intervals on every axis, a ray that passes a box by the slab test
/// passes every box that encloses it.
pub proof fn lemma_slab_test_grows(
    pass: spec_fn(AABB, Interval) -> bool,
    slab_x: spec_fn(Interval) -> crate::aabb::Slab,
    slab_y: spec_fn(Interval) -> crate::aabb::Slab,
    slab_z: spec_fn(Interval) -> crate::aabb::Slab,
)
    requires
        slab_grows(slab_x),
        slab_grows(slab_y),
        slab_grows(slab_z),
        forall|bounds: AABB, window: Interval| #[trigger]
            pass(bounds, window) == AABB::spec_clip(
                slab_x(bounds.x),
                slab_y(bounds.y),
                slab_z(bounds.z),
                window,
            ).is_some(),
    ensures
        pass_grows(pass),
{
    assert forall|inner: AABB, outer: AABB, window: Interval|
        #![trigger pass(inner, window), outer.spec_encloses(inner)]
        pass(inner, window) && outer.spec_encloses(inner) implies pass(outer, window) by {
        let (x, y, z) = (slab_x(inner.x), slab_y(inner.y), slab_z(inner.z));
        let (wx, wy, wz) = (slab_x(outer.x), slab_y(outer.y), slab_z(outer.z));
        assert(wx.spec_covers(x) && wx.is_numeric() && x.is_numeric());
        assert(wy.spec_covers(y) && wy.is_numeric() && y.is_numeric());
        assert(wz.spec_covers(z) && wz.is_numeric() && z.is_numeric());
        if !window.min.spec_is_nan() && !window.max.spec_is_nan() {
            crate::aabb::lemma_clip_grows(x, y, z, wx, wy, wz, window);
        }
    }
}

/// In a well-formed hierarchy the box of a node encloses the box of every
/// primitive below it, provided the boxes of the primitives have numbers
/// for bounds.
pub proof fn lemma_node_encloses_members(tree: BVH, boxes: Seq<AABB>, p: int)
    requires
        tree.well_formed(boxes),
        forall|q: int| tree.members().contains(q) ==> (#[trigger] boxes[q]).is_numeric(),
        tree.members().contains(p),
    ensures
        0 <= p < boxes.len(),
        tree.bbox.is_numeric(),
        tree.bbox.spec_encloses(boxes[p]),
    decreases tree,
{
    match tree.tree {
        BVHNode::Leaf(i) => {
            crate::aabb::lemma_combine_encloses(boxes[p], boxes[p], boxes[p]);
        },
        BVHNode::Branch { left, right } => {
            lemma_node_is_numeric(*left, boxes);
            lemma_node_is_numeric(*right, boxes);
            crate::aabb::lemma_combine_encloses(left.bbox, right.bbox, tree.bbox);
            if left.members().contains(p) {
                lemma_node_encloses_members(*left, boxes, p);
                crate::aabb::lemma_combine_encloses(boxes[p], left.bbox, tree.bbox);
            } else {
                lemma_node_encloses_members(*right, boxes, p);
                crate::aabb::lemma_combine_encloses(boxes[p], right.bbox, tree.bbox);
            }
        },
    }
}

proof fn lemma_node_is_numeric(tree: BVH, boxes: Seq<AABB>)
    requires
        tree.well_formed(boxes),
        forall|q: int| tree.members().contains(q) ==> (#[trigger] boxes[q]).is_numeric(),
    ensures
        tree.bbox.is_numeric(),
    decreases tree,
{
    match tree.tree {
        BVHNode::Leaf(i) => {
            assert(tree.members().contains(i as int));
        },
        BVHNode::Branch { left, right } => {
            lemma_node_is_numeric(*left, boxes);
            lemma_node_is_numeric(*right, boxes);
            crate::aabb::lemma_combine_encloses(left.bbox, right.bbox, tree.bbox);
        },
    }
}

/// Pruning with a well-formed hierarchy loses no hit: where the box of each
/// primitive admits the primitive and the box test is monotone, the box of
/// every node admits every primitive below it.
pub proof fn lemma_well_formed_admits(
    tree: BVH,
    boxes: Seq<AABB>,
    pass: spec_fn(AABB, Interval) -> bool,
    test: spec_fn(int, Interval) -> Option<HitRecord>,
)
    requires
        tree.well_formed(boxes),
        pass_grows(pass),
        forall|q: int| tree.members().contains(q) ==> (#[trigger] boxes[q]).is_numeric(),
        forall|q: int| tree.members().contains(q) ==> bounds_admit(pass, test, #[trigger] boxes[q], q),
    ensures
        tree.admits(pass, test),
    decreases tree,
{
    assert forall|p: int| tree.members().contains(p) implies bounds_admit(
        pass,
        test,
        tree.bbox,
        p,
    ) by {
        lemma_node_encloses_members(tree, boxes, p);
        assert(bounds_admit(pass, test, boxes[p], p));
        assert forall|window: Interval| (#[trigger] test(p, window)).is_some() implies pass(
            tree.bbox,
            window,
        ) by {
            assert(pass(boxes[p], window));
            assert(tree.bbox.spec_encloses(boxes[p]));
        }
    }
    match tree.tree {
        BVHNode::Leaf(_) => {},
        BVHNode::Branch { left, right } => {
            lemma_well_formed_admits(*left, boxes, pass, test);
            lemma_well_formed_admits(*right, boxes, pass, test);
        },
    }
}

/// A hierarchy as the builder makes it finds the same nearest hit as the
/// flat list. Given a well-formed hierarchy over all objects of a scene,
/// objects that answer like surfaces, boxes with numbers for bounds that
/// admit their objects, and a box test that is monotone, the two searches
/// agree on every window: both hit or both miss, and their hits lie at the
/// same ray parameter.
pub proof fn lemma_built_hierarchy_agrees_with_list(
    tree: BVH,
    boxes: Seq<AABB>,
    pass: spec_fn(AABB, Interval) -> bool,
    test: spec_fn(int, Interval) -> Option<HitRecord>,
    window: Interval,
)
    requires
        !window.max.spec_is_nan(),
        tree.well_formed(boxes),
        tree.members() == first(boxes.len() as int),
        pass_grows(pass),
        forall|q: int| 0 <= q < boxes.len() ==> (#[trigger] boxes[q]).is_numeric(),
        forall|q: int| 0 <= q < boxes.len() ==> bounds_admit(pass, test, #[trigger] boxes[q], q),
        forall|q: int| 0 <= q < boxes.len() ==> answers_nearest(test, q, window.min),
    ensures
        tree.spec_hit(window, pass, test).is_some() == crate::entity::EntityList::spec_hit(
            boxes.len() as int,
            window,
            test,
        ).is_some(),
        tree.spec_hit(window, pass, test).is_some() ==> tree.spec_hit(
            window,
            pass,
            test,
        ).unwrap().t.spec_same(
            crate::entity::EntityList::spec_hit(boxes.len() as int, window, test).unwrap().t,
        ),
{
    lemma_well_formed_admits(tree, boxes, pass, test);
    lemma_hierarchy_agrees_with_list(tree, boxes.len() as int, pass, test, window);
}

/// The hierarchy and the flat list agree on a scene of spheres and quads.
/// The tests of the primitives are those that this library decides
/// ([`crate::sphere::Sphere::spec_pick_root`], [`crate::quad::Quad::spec_hit`])
/// and the box test is its slab test. What is left to ask concerns the
/// arithmetic alone: that the slabs of the ray grow with the intervals, and
/// that the ray passes the box of every primitive that it hits. Then, over a
/// well-formed hierarchy of all primitives, both searches hit or both miss
/// on every window, and their hits lie at the same ray parameter.
pub proof fn lemma_spheres_and_quads_agree(
    tree: BVH,
    boxes: Seq<AABB>,
    slab_x: spec_fn(Interval) -> crate::aabb::Slab,
    slab_y: spec_fn(Interval) -> crate::aabb::Slab,
    slab_z: spec_fn(Interval) -> crate::aabb::Slab,
    pass: spec_fn(AABB, Interval) -> bool,
    test: spec_fn(int, Interval) -> Option<HitRecord>,
    window: Interval,
)
    requires
        !window.max.spec_is_nan(),
        tree.well_formed(boxes),
        tree.members() == first(boxes.len() as int),
        forall|q: int| 0 <= q < boxes.len() ==> (#[trigger] boxes[q]).is_numeric(),
        slab_grows(slab_x),
        slab_grows(slab_y),
        slab_grows(slab_z),
        forall|bounds: AABB, w: Interval| #[trigger]
            pass(bounds, w) == AABB::spec_clip(
                slab_x(bounds.x),
                slab_y(bounds.y),
                slab_z(bounds.z),
                w,
            ).is_some(),
        forall|q: int| 0 <= q < boxes.len() ==> bounds_admit(pass, test, #[trigger] boxes[q], q),
        forall|q: int|
            0 <= q < boxes.len() ==> crate::sphere::is_sphere_test(test, q, window.min)
                || crate::quad::is_quad_test(test, q, window.min),
    ensures
        tree.spec_hit(window, pass, test).is_some() == crate::entity::EntityList::spec_hit(
            boxes.len() as int,
            window,
            test,
        ).is_some(),
        tree.spec_hit(window, pass, test).is_some() ==> tree.spec_hit(
            window,
            pass,
            test,
        ).unwrap().t.spec_same(
            crate::entity::EntityList::spec_hit(boxes.len() as int, window, test).unwrap().t,
        ),
{
    let min = window.min;
    lemma_slab_test_grows(pass, slab_x, slab_y, slab_z);
    assert forall|q: int| 0 <= q < boxes.len() implies answers_nearest(test, q, min) by {
        if crate::sphere::is_sphere_test(test, q, min) {
            let (discriminant, near, far, record_at) = choose|
                discriminant: Scalar,
                near: Scalar,
                far: Scalar,
                record_at: spec_fn(Scalar) -> HitRecord,
            | #[trigger]
                crate::sphere::is_sphere_test_with(
                    test,
                    q,
                    min,
                    discriminant,
                    near,
                    far,
                    record_at,
                );
            crate::sphere::lemma_sphere_answers_nearest(
                test,
                q,
                min,
                discriminant,
                near,
                far,
                record_at,
            );
        } else {
            let (quad, denom, t, position, alpha, beta) = choose|
                quad: crate::quad::Quad,
                denom: Scalar,
                t: Scalar,
                position: crate::vec3::Vec3,
                alpha: Scalar,
                beta: Scalar,
            | #[trigger]
                crate::quad::is_quad_test_with(test, q, min, quad, denom, t, position, alpha, beta);
            crate::quad::lemma_quad_hit_answers_nearest(
                test,
                q,
                min,
                quad,
                denom,
                t,
                position,
                alpha,
                beta,
            );
        }
    }
    lemma_built_hierarchy_agrees_with_list(tree, boxes, pass, test, window);
}

/// The set of primitives below a node holds exactly the primitives of its
/// leaves.
pub proof fn lemma_members_are_leaves(tree: BVH)
    ensures
        forall|p: int|
            tree.members().contains(p) <==> 0 <= p <= usize::MAX && tree.leaves().contains(
                p as usize,
            ),
    decreases tree,
{
    match tree.tree {
        BVHNode::Leaf(q) => {
            assert forall|p: int|
                tree.members().contains(p) <==> 0 <= p <= usize::MAX && tree.leaves().contains(
                    p as usize,
                ) by {
                if tree.members().contains(p) {
                    assert(tree.leaves()[0] == p as usize);
                }
            }
        },
        BVHNode::Branch { left, right } => {
            lemma_members_are_leaves(*left);
            lemma_members_are_leaves(*right);
            let l = left.leaves();
            let r = right.leaves();
            assert(tree.leaves() == l + r);
            assert(tree.members() == left.members().union(right.members()));
            assert forall|p: int|
                tree.members().contains(p) <==> 0 <= p <= usize::MAX && tree.leaves().contains(
                    p as usize,
                ) by {
                if 0 <= p <= usize::MAX {
                    let q = p as usize;
                    if left.members().contains(p) {
                        assert(l.contains(q));
                        let i = choose|i: int| 0 <= i < l.len() && l[i] == q;
                        assert((l + r)[i] == q);
                        assert((l + r).contains(q));
                    }
                    if right.members().contains(p) {
                        assert(r.contains(q));
                        let i = choose|i: int| 0 <= i < r.len() && r[i] == q;
                        assert((l + r)[l.len() + i] == q);
                        assert((l + r).contains(q));
                    }
                    if (l + r).contains(q) {
                        let i = choose|i: int| 0 <= i < (l + r).len() && (l + r)[i] == q;
                        if i < l.len() {
                            assert(l[i] == q);
                            assert(l.contains(q));
                            assert(left.members().contains(p));
                        } else {
                            assert(r[i - l.len()] == q);
                            assert(r.contains(q));
                            assert(right.members().contains(p));
                        }
                    }
                } else {
                    assert(!left.members().contains(p));
                    assert(!right.members().contains(p));
                }
            }
        },
    }
}

} // verus!
