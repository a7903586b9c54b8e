//! The flat scene: objects in the order of their insertion, with the box
//! that bounds them all, and the linear nearest-hit search.
use vstd::prelude::*;
use crate::aabb::AABB;
use crate::hit::HitRecord;
use crate::interval::Interval;
use crate::scalar::Scalar;
use crate::search::{
    answers_nearest,
    holds_an_answer,
    is_nearest,
    lemma_accept_holds_an_answer,
    lemma_accept_keeps_nearest,
    Best,
};

verus! {

/// The objects of a scene, each known by its index and its bounding box.
/// `bbox` bounds them all and is kept up to date on every insertion.
#[derive(Debug)]
pub struct EntityList {
    pub list: Vec<AABB>,
    pub bbox: AABB,
}

/// The box that bounds a sequence of boxes: the empty box combined with
/// each of them in turn.
pub open spec fn union_of(boxes: Seq<AABB>) -> AABB
    decreases boxes.len(),
{
    if boxes.len() == 0 {
        AABB::spec_empty()
    } else {
        AABB::spec_combine(union_of(boxes.drop_last()), boxes.last())
    }
}

/// The outcome of asking the primitives `from..count` in turn, each in the
/// window that the answers before it have left.
pub open spec fn spec_scan(
    test: spec_fn(int, Interval) -> Option<HitRecord>,
    from: int,
    count: int,
    min: Scalar,
    best: Best,
) -> Best
    decreases count - from,
{
    if from >= count {
        best
    } else {
        spec_scan(
            test,
            from + 1,
            count,
            min,
            best.spec_accept(test(from, best.spec_window(min))),
        )
    }
}

impl EntityList {
    /// Whether `bbox` is the union of the boxes of the objects.
    pub open spec fn well_formed(&self) -> bool {
        self.bbox == union_of(self.list@)
    }

    /// The nearest hit among `count` objects within `window`, as the linear
    /// search finds it.
    pub open spec fn spec_hit(
        count: int,
        window: Interval,
        test: spec_fn(int, Interval) -> Option<HitRecord>,
    ) -> Option<HitRecord> {
        spec_scan(test, 0, count, window.min, Best::spec_start(window.max)).record
    }

    /// The scene without objects; its box is empty.
    pub fn new() -> (r: EntityList)
        ensures
            r.list@.len() == 0,
            r.bbox == AABB::spec_empty(),
            r.well_formed(),
    {
        EntityList { list: Vec::new(), bbox: AABB::empty() }
    }

    /// Adds an object with the given box and returns its index. The box of
    /// the scene grows to cover it.
    pub fn add(&mut self, bbox: AABB) -> (index: usize)
        requires
            old(self).well_formed(),
        ensures
            index == old(self).list@.len(),
            final(self).list@ == old(self).list@.push(bbox),
            final(self).bbox == AABB::spec_combine(old(self).bbox, bbox),
            final(self).well_formed(),
    {
        let index = self.list.len();
        self.bbox = AABB::combine(&self.bbox, &bbox);
        self.list.push(bbox);
        proof {
            assert(self.list@.drop_last() == old(self).list@);
        }
        index
    }

    /// The number of objects.
    pub fn len(&self) -> (n: usize)
        ensures
            n == self.list@.len(),
    {
        self.list.len()
    }

    /// The box that bounds the scene, as it is kept.
    pub fn get_aabb(&self) -> (r: AABB)
        ensures
            r == self.bbox,
    {
        self.bbox
    }

    /// The box that bounds the scene, computed anew from the objects.
    pub fn compute_aabb(&self) -> (r: AABB)
        ensures
            r == union_of(self.list@),
    {
        let mut aabb = AABB::empty();
        let mut i: usize = 0;
        while i < self.list.len()
            invariant
                i <= self.list@.len(),
                aabb == union_of(self.list@.take(i as int)),
            decreases self.list@.len() - i,
        {
            proof {
                assert(self.list@.take(i + 1).drop_last() == self.list@.take(i as int));
            }
            aabb = AABB::combine(&aabb, &self.list[i]);
            i = i + 1;
        }
        proof {
            assert(self.list@.take(i as int) == self.list@);
        }
        aabb
    }

    /// Begins the search for the nearest hit within `t_interval`.
    pub fn hit(&self, t_interval: &Interval) -> (scan: Scan)
        ensures
            scan.next == 0,
            scan.count == self.list@.len(),
            scan.min == t_interval.min,
            scan.best == Best::spec_start(t_interval.max),
    {
        Scan { next: 0, count: self.list.len(), min: t_interval.min, best: Best::start(t_interval.max) }
    }
}

/// A linear search in progress. The objects are asked in the order of
/// their indices; [`Scan::query`] names the next one and its window, and
/// [`Scan::answer`] takes what its intersection test returned.
#[derive(Debug, Clone, Copy, PartialEq, Eq, Structural)]
pub struct Scan {
    pub next: usize,
    pub count: usize,
    pub min: Scalar,
    pub best: Best,
}

impl Scan {
    /// Where the search ends when every object still to be asked answers as
    /// `test` says.
    pub open spec fn spec_outcome(self, test: spec_fn(int, Interval) -> Option<HitRecord>) -> Best {
        spec_scan(test, self.next as int, self.count as int, self.min, self.best)
    }

    /// The object to ask next and the window to ask it in; `None` once all
    /// were asked.
    pub fn query(&self) -> (q: Option<(usize, Interval)>)
        ensures
            self.next < self.count ==> q == Some((self.next, self.best.spec_window(self.min))),
            self.next >= self.count ==> q.is_none(),
    {
        if self.next < self.count {
            Some((self.next, self.best.window(self.min)))
        } else {
            None
        }
    }

    /// Takes the answer of the object that [`Scan::query`] named: a hit
    /// becomes the closest so far and narrows the window for the objects
    /// that follow; a miss leaves both alone.
    pub fn answer(&mut self, answer: Option<HitRecord>)
        requires
            old(self).next < old(self).count,
        ensures
            final(self).next == old(self).next + 1,
            final(self).count == old(self).count,
            final(self).min == old(self).min,
            final(self).best == old(self).best.spec_accept(answer),
    {
        self.best = self.best.accept(answer);
        self.next = self.next + 1;
    }

    /// The closest hit found so far: once every object was asked, the result
    /// of the search.
    pub fn result(&self) -> (r: Option<HitRecord>)
        ensures
            r == self.best.record,
            self.next >= self.count ==> forall|test: spec_fn(int, Interval) -> Option<HitRecord>|
                r == (#[trigger] self.spec_outcome(test)).record,
    {
        self.best.record
    }
}

/// An answer that agrees with `test` moves the search along the path that
/// `test` prescribes: the outcome stays the same.
pub proof fn lemma_answer_follows(
    before: Scan,
    after: Scan,
    test: spec_fn(int, Interval) -> Option<HitRecord>,
)
    requires
        before.next < before.count,
        after.next == before.next + 1,
        after.count == before.count,
        after.min == before.min,
        after.best == before.best.spec_accept(
            test(before.next as int, before.best.spec_window(before.min)),
        ),
    ensures
        after.spec_outcome(test) == before.spec_outcome(test),
{
}

/// The indices below `count`.
pub open spec fn first(count: int) -> Set<int> {
    Set::new(|p: int| 0 <= p < count)
}

/// The linear search finds a nearest hit: from a state that is nearest for
/// the objects below `from`, it ends in a state that is nearest for all
/// `count` objects.
pub proof fn lemma_scan_is_nearest(
    test: spec_fn(int, Interval) -> Option<HitRecord>,
    from: int,
    count: int,
    window: Interval,
    best: Best,
)
    requires
        0 <= from <= count,
        is_nearest(test, first(from), window, best),
        forall|p: int| 0 <= p < count ==> answers_nearest(test, p, window.min),
    ensures
        is_nearest(test, first(count), window, spec_scan(test, from, count, window.min, best)),
    decreases count - from,
{
    if from < count {
        lemma_accept_keeps_nearest(test, first(from), window, best, from);
        assert(first(from).insert(from) =~= first(from + 1));
        lemma_scan_is_nearest(
            test,
            from + 1,
            count,
            window,
            best.spec_accept(test(from, best.spec_window(window.min))),
        );
    }
}

/// The result of the linear search over `count` objects is a nearest hit
/// among them.
pub proof fn lemma_list_hit_is_nearest(
    test: spec_fn(int, Interval) -> Option<HitRecord>,
    count: int,
    window: Interval,
)
    requires
        0 <= count,
        !window.max.spec_is_nan(),
        forall|p: int| 0 <= p < count ==> answers_nearest(test, p, window.min),
    ensures
        is_nearest(
            test,
            first(count),
            window,
            spec_scan(test, 0, count, window.min, Best::spec_start(window.max)),
        ),
{
    assert(is_nearest(test, first(0), window, Best::spec_start(window.max)));
    lemma_scan_is_nearest(test, 0, count, window, Best::spec_start(window.max));
}

/// The linear search invents nothing, whatever the objects answer: a hit
/// that it reports is what one of the objects has answered in a window from
/// the lower bound of the query.
pub proof fn lemma_scan_holds_an_answer(
    test: spec_fn(int, Interval) -> Option<HitRecord>,
    from: int,
    count: int,
    min: Scalar,
    best: Best,
)
    requires
        0 <= from <= count,
        holds_an_answer(test, first(from), min, best),
    ensures
        holds_an_answer(test, first(count), min, spec_scan(test, from, count, min, best)),
    decreases count - from,
{
    if from < count {
        lemma_accept_holds_an_answer(test, first(from), min, best, from);
        assert(first(from).insert(from) =~= first(from + 1));
        lemma_scan_holds_an_answer(
            test,
            from + 1,
            count,
            min,
            best.spec_accept(test(from, best.spec_window(min))),
        );
    }
}

/// A hit of the linear search is an answer of one of its objects.
pub proof fn lemma_list_hit_is_an_answer(
    test: spec_fn(int, Interval) -> Option<HitRecord>,
    count: int,
    window: Interval,
)
    requires
        0 <= count,
    ensures
        EntityList::spec_hit(count, window, test) matches Some(r) ==> exists|p: int, max: Scalar|
            0 <= p < count && #[trigger] test(p, Interval { min: window.min, max }) == Some(r),
{
    let start = Best::spec_start(window.max);
    assert(holds_an_answer(test, first(0), window.min, start));
    lemma_scan_holds_an_answer(test, 0, count, window.min, start);
    let end = spec_scan(test, 0, count, window.min, start);
    if end.record.is_some() {
        let r = end.record.unwrap();
        let (p, max) = choose|p: int, max: Scalar|
            first(count).contains(p) && #[trigger] test(p, Interval { min: window.min, max })
                == Some(r);
        assert(0 <= p < count && test(p, Interval { min: window.min, max }) == Some(r));
    }
}

} // verus!
