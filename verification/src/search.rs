//! Nearest-hit search: the discipline that the flat list and the hierarchy
//! share, and why both find the same hit.
//!
//! A search keeps the closest hit found so far and asks every further
//! primitive only for hits that are no farther. The intersection tests
//! themselves are arithmetic and are made by the caller; here a test is a
//! function from a primitive and a window of ray parameters to an optional
//! hit record.
use vstd::prelude::*;
use crate::aabb::AABB;
use crate::hit::HitRecord;
use crate::interval::Interval;
use crate::scalar::Scalar;

verus! {

/// What a search knows at any moment: the upper bound of the window that is
/// still of interest, and the closest hit so far.
#[derive(Debug, Clone, Copy, PartialEq, Eq, Structural)]
pub struct Best {
    pub closest: Scalar,
    pub record: Option<HitRecord>,
}

impl Best {
    /// The state before any primitive was asked.
    pub open spec fn spec_start(max: Scalar) -> Best {
        Best { closest: max, record: None }
    }

    /// The state after a primitive has answered: a hit replaces the record
    /// and pulls the window in to its parameter, a miss changes nothing.
    pub open spec fn spec_accept(self, answer: Option<HitRecord>) -> Best {
        match answer {
            Some(r) => Best { closest: r.t, record: Some(r) },
            None => self,
        }
    }

    /// The window in which the next primitive is asked.
    pub open spec fn spec_window(self, min: Scalar) -> Interval {
        Interval { min, max: self.closest }
    }

    /// The state before any primitive was asked.
    pub fn start(max: Scalar) -> (b: Best)
        ensures
            b == Best::spec_start(max),
    {
        Best { closest: max, record: None }
    }

    /// The state after a primitive has answered.
    pub fn accept(self, answer: Option<HitRecord>) -> (b: Best)
        ensures
            b == self.spec_accept(answer),
    {
        match answer {
            Some(r) => Best { closest: r.t, record: Some(r) },
            None => self,
        }
    }

    /// The window in which the next primitive is asked.
    pub fn window(self, min: Scalar) -> (w: Interval)
        ensures
            w == self.spec_window(min),
    {
        Interval { min, max: self.closest }
    }
}

/// A primitive answers like a surface: within windows `[min, max]` of one
/// lower bound, a hit lies at a number no greater than `max`; a primitive
/// that misses a window misses every narrower one; and narrowing a window
/// either keeps the hit or loses it, and keeps it whenever the hit lies
/// strictly inside the narrower window.
pub open spec fn answers_nearest(
    test: spec_fn(int, Interval) -> Option<HitRecord>,
    p: int,
    min: Scalar,
) -> bool {
    forall|max: Scalar, narrower: Scalar|
        #![trigger test(p, Interval { min, max }), test(p, Interval { min, max: narrower })]
        narrower.spec_le(max) ==> {
            let wide = test(p, Interval { min, max });
            let narrow = test(p, Interval { min, max: narrower });
            match wide {
                Some(h) => h.t.spec_le(max) && (narrow == wide || narrow.is_none()) && (h.t.spec_lt(
                    narrower,
                ) ==> narrow == wide),
                None => narrow.is_none(),
            }
        }
}

/// `best` is the outcome of a nearest-hit search over the primitives in
/// `seen`, for the window `[min, max]`: no record means that none of them is
/// hit within the window; a record is the answer of one of them and lies no
/// farther than the answer of any other.
pub open spec fn is_nearest(
    test: spec_fn(int, Interval) -> Option<HitRecord>,
    seen: Set<int>,
    window: Interval,
    best: Best,
) -> bool {
    &&& !window.max.spec_is_nan()
    &&& match best.record {
        None => best.closest == window.max && forall|p: int|
            seen.contains(p) ==> (#[trigger] test(p, window)).is_none(),
        Some(r) => {
            &&& best.closest == r.t
            &&& r.t.spec_le(window.max)
            &&& exists|q: int| seen.contains(q) && #[trigger] test(q, window) == Some(r)
            &&& forall|p: int|
                seen.contains(p) ==> match #[trigger] test(p, window) {
                    Some(h) => r.t.spec_le(h.t),
                    None => true,
                }
        },
    }
}

/// Asking one more primitive in the current window keeps the search
/// nearest.
pub proof fn lemma_accept_keeps_nearest(
    test: spec_fn(int, Interval) -> Option<HitRecord>,
    seen: Set<int>,
    window: Interval,
    best: Best,
    p: int,
)
    requires
        is_nearest(test, seen, window, best),
        answers_nearest(test, p, window.min),
    ensures
        is_nearest(
            test,
            seen.insert(p),
            window,
            best.spec_accept(test(p, best.spec_window(window.min))),
        ),
{
    let min = window.min;
    let wide = test(p, window);
    let narrow = test(p, best.spec_window(min));
    let after = best.spec_accept(narrow);
    let grown = seen.insert(p);
    assert(window == Interval { min, max: window.max });
    assert(best.closest.spec_le(window.max));
    // the hypothesis on `p`, for the full window and the current one
    assert(test(p, Interval { min, max: window.max }) == wide);
    assert(test(p, Interval { min, max: best.closest }) == narrow);
    if narrow.is_some() {
        let h = narrow.unwrap();
        assert(wide == narrow);
        // the hit lies within the current window
        assert(best.closest.spec_le(best.closest));
        assert(h.t.spec_le(best.closest));
        assert(grown.contains(p) && test(p, window) == Some(h));
        assert forall|q: int| grown.contains(q) implies match #[trigger] test(q, window) {
            Some(k) => h.t.spec_le(k.t),
            None => true,
        } by {
            if q != p {
                assert(seen.contains(q));
            }
        }
    } else {
        assert(after == best);
        match best.record {
            None => {
                assert(best.spec_window(min) == window);
                assert forall|q: int| grown.contains(q) implies (#[trigger] test(
                    q,
                    window,
                )).is_none() by {
                    if q != p {
                        assert(seen.contains(q));
                    }
                }
            },
            Some(r) => {
                let w = choose|w: int| seen.contains(w) && #[trigger] test(w, window) == Some(r);
                assert(grown.contains(w));
                assert forall|q: int| grown.contains(q) implies match #[trigger] test(q, window) {
                    Some(k) => r.t.spec_le(k.t),
                    None => true,
                } by {
                    if q != p {
                        assert(seen.contains(q));
                    }
                }
            },
        }
    }
}

/// Primitives that all miss the current window may be passed over: the
/// search stays nearest for the larger set.
pub proof fn lemma_skip_keeps_nearest(
    test: spec_fn(int, Interval) -> Option<HitRecord>,
    seen: Set<int>,
    skipped: Set<int>,
    window: Interval,
    best: Best,
)
    requires
        is_nearest(test, seen, window, best),
        forall|p: int| skipped.contains(p) ==> answers_nearest(test, p, window.min),
        forall|p: int|
            skipped.contains(p) ==> (#[trigger] test(p, best.spec_window(window.min))).is_none(),
    ensures
        is_nearest(test, seen.union(skipped), window, best),
{
    let min = window.min;
    let all = seen.union(skipped);
    assert(window == Interval { min, max: window.max });
    assert(best.closest.spec_le(window.max));
    assert forall|p: int| skipped.contains(p) implies match #[trigger] test(p, window) {
        Some(k) => best.record.is_some() && best.closest.spec_le(k.t),
        None => true,
    } by {
        assert(answers_nearest(test, p, min));
        assert(test(p, Interval { min, max: window.max }) == test(p, window));
        assert(test(p, best.spec_window(min)).is_none());
        assert(test(p, Interval { min, max: best.closest }).is_none());
        if best.record.is_none() {
            assert(best.spec_window(min) == window);
        }
    }
    match best.record {
        None => {
            assert forall|q: int| all.contains(q) implies (#[trigger] test(q, window)).is_none() by {
                if !seen.contains(q) {
                    assert(skipped.contains(q));
                }
            }
        },
        Some(r) => {
            let w = choose|w: int| seen.contains(w) && #[trigger] test(w, window) == Some(r);
            assert(all.contains(w));
            assert forall|q: int| all.contains(q) implies match #[trigger] test(q, window) {
                Some(k) => r.t.spec_le(k.t),
                None => true,
            } by {
                if !seen.contains(q) {
                    assert(skipped.contains(q));
                }
            }
        },
    }
}

/// Two nearest-hit searches over the same primitives and the same window
/// agree: both hit or both miss, and two hits lie at the same parameter.
pub proof fn lemma_nearest_agree(
    test: spec_fn(int, Interval) -> Option<HitRecord>,
    seen: Set<int>,
    window: Interval,
    one: Best,
    other: Best,
)
    requires
        is_nearest(test, seen, window, one),
        is_nearest(test, seen, window, other),
    ensures
        one.record.is_some() == other.record.is_some(),
        one.record.is_some() ==> one.record.unwrap().t.spec_same(other.record.unwrap().t),
        one.closest.spec_same(other.closest) || one.closest == other.closest,
{
    if one.record.is_some() {
        let r = one.record.unwrap();
        let w = choose|w: int| seen.contains(w) && #[trigger] test(w, window) == Some(r);
        assert(test(w, window).is_some());
        assert(other.record.is_some());
        let s = other.record.unwrap();
        let v = choose|v: int| seen.contains(v) && #[trigger] test(v, window) == Some(s);
        assert(s.t.spec_le(r.t));
        assert(r.t.spec_le(s.t));
    } else if other.record.is_some() {
        let s = other.record.unwrap();
        let v = choose|v: int| seen.contains(v) && #[trigger] test(v, window) == Some(s);
        assert(test(v, window).is_some());
    }
}

/// Where no two primitives are hit at the same parameter, two nearest-hit
/// searches over the same primitives and the same window return the same
/// record.
pub proof fn lemma_nearest_agree_exactly(
    test: spec_fn(int, Interval) -> Option<HitRecord>,
    seen: Set<int>,
    window: Interval,
    one: Best,
    other: Best,
)
    requires
        is_nearest(test, seen, window, one),
        is_nearest(test, seen, window, other),
        forall|p: int, q: int|
            seen.contains(p) && seen.contains(q) && p != q && (#[trigger] test(p, window)).is_some()
                && (#[trigger] test(q, window)).is_some() ==> !test(p, window).unwrap().t.spec_same(
                test(q, window).unwrap().t,
            ),
    ensures
        one.record == other.record,
{
    lemma_nearest_agree(test, seen, window, one, other);
    if one.record.is_some() {
        let r = one.record.unwrap();
        let s = other.record.unwrap();
        let w = choose|w: int| seen.contains(w) && #[trigger] test(w, window) == Some(r);
        let v = choose|v: int| seen.contains(v) && #[trigger] test(v, window) == Some(s);
        if w != v {
            assert(test(w, window).is_some() && test(v, window).is_some());
            assert(false);
        }
    }
}

/// A search invents nothing: a record that it holds is what one of the
/// primitives in `seen` has answered in some window from `min`, and the
/// window has been pulled in to the parameter of that record.
pub open spec fn holds_an_answer(
    test: spec_fn(int, Interval) -> Option<HitRecord>,
    seen: Set<int>,
    min: Scalar,
    best: Best,
) -> bool {
    match best.record {
        None => true,
        Some(r) => best.closest == r.t && exists|p: int, max: Scalar|
            seen.contains(p) && #[trigger] test(p, Interval { min, max }) == Some(r),
    }
}

/// Asking one more primitive keeps the record an answer, whatever the
/// primitive answers; and a record once held is never given up for none.
pub proof fn lemma_accept_holds_an_answer(
    test: spec_fn(int, Interval) -> Option<HitRecord>,
    seen: Set<int>,
    min: Scalar,
    best: Best,
    p: int,
)
    requires
        holds_an_answer(test, seen, min, best),
    ensures
        holds_an_answer(
            test,
            seen.insert(p),
            min,
            best.spec_accept(test(p, best.spec_window(min))),
        ),
        best.record.is_some() ==> best.spec_accept(
            test(p, best.spec_window(min)),
        ).record.is_some(),
{
    let answer = test(p, best.spec_window(min));
    let after = best.spec_accept(answer);
    match answer {
        Some(r) => {
            assert(seen.insert(p).contains(p) && test(p, Interval { min, max: best.closest })
                == Some(r));
        },
        None => {
            if best.record.is_some() {
                let r = best.record.unwrap();
                let (q, max) = choose|q: int, max: Scalar|
                    seen.contains(q) && #[trigger] test(q, Interval { min, max }) == Some(r);
                assert(seen.insert(p).contains(q) && test(q, Interval { min, max }) == Some(r));
            }
        },
    }
}

/// An answer stays an answer among more primitives.
pub proof fn lemma_answer_among_more(
    test: spec_fn(int, Interval) -> Option<HitRecord>,
    seen: Set<int>,
    more: Set<int>,
    min: Scalar,
    best: Best,
)
    requires
        holds_an_answer(test, seen, min, best),
        seen.subset_of(more),
    ensures
        holds_an_answer(test, more, min, best),
{
    if best.record.is_some() {
        let r = best.record.unwrap();
        let (q, max) = choose|q: int, max: Scalar|
            seen.contains(q) && #[trigger] test(q, Interval { min, max }) == Some(r);
        assert(more.contains(q) && test(q, Interval { min, max }) == Some(r));
    }
}

/// A box test never turns away a ray that hits a primitive of the box:
/// whenever primitive `p` is hit within a window, the ray passes `bounds`
/// within that window.
pub open spec fn bounds_admit(
    pass: spec_fn(AABB, Interval) -> bool,
    test: spec_fn(int, Interval) -> Option<HitRecord>,
    bounds: AABB,
    p: int,
) -> bool {
    forall|window: Interval| (#[trigger] test(p, window)).is_some() ==> pass(bounds, window)
}

} // verus!
