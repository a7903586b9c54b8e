use pathtrace::aabb::AABB;
use pathtrace::builder::BvhBuilder;
use pathtrace::bvh::{BVHNode, Probe, BVH};
use pathtrace::entity::EntityList;
use pathtrace::hit::HitRecord;
use pathtrace::interval::Interval;
use pathtrace::scalar::Scalar;
use pathtrace::vec3::Vec3;

fn s(x: f32) -> Scalar {
    Scalar::from_bits(x.to_bits())
}

fn f(x: Scalar) -> f32 {
    f32::from_bits(x.to_bits())
}

fn mix(mut h: u64) -> u64 {
    h ^= h >> 33;
    h = h.wrapping_mul(0xff51afd7ed558ccd);
    h ^= h >> 33;
    h = h.wrapping_mul(0xc4ceb9fe1a85ec53);
    h ^ (h >> 33)
}

/// An arbitrary answer of a box: any function of the box and the window.
fn pass(seed: u64, bbox: &AABB, window: &Interval) -> bool {
    mix(seed ^ bbox.x.min.to_bits() as u64 ^ ((window.max.to_bits() as u64) << 20)) % 4 != 0
}

/// An arbitrary answer of a primitive: any function of the primitive and
/// the window, with hits inside the window.
fn test(seed: u64, index: usize, window: &Interval) -> Option<HitRecord> {
    let h = mix(seed ^ (index as u64) << 8 ^ ((window.max.to_bits() as u64) << 24));
    if h % 3 == 0 {
        return None;
    }
    let (lo, hi) = (f(window.min), f(window.max));
    let t = lo + (hi - lo) * (((h >> 8) % 1000) as f32 / 1000.0);
    let mut record = HitRecord::new();
    record.t = s(t);
    record.material = Some(index);
    Some(record)
}

/// The search written as the recursion that it is.
fn walk(tree: &BVH, seed: u64, window: &Interval, record: &mut Option<HitRecord>) -> bool {
    if !pass(seed, &tree.bbox, window) {
        return false;
    }
    match &tree.tree {
        BVHNode::Leaf(index) => match test(seed, *index, window) {
            Some(hit) => {
                *record = Some(hit);
                true
            },
            None => false,
        },
        BVHNode::Branch { left, right } => {
            let hit_left = walk(left, seed, window, record);
            let closer = if hit_left { record.unwrap().t } else { window.max };
            let hit_right = walk(right, seed, &Interval::new(window.min, closer), record);
            hit_left || hit_right
        },
    }
}

fn boxes(count: usize, seed: u64) -> Vec<AABB> {
    (0..count)
        .map(|i| {
            let at = |k: u64| (mix(seed ^ (i as u64 * 8 + k)) % 2000) as f32 / 100.0 - 10.0;
            AABB::span(
                Vec3::new(s(at(0)), s(at(1)), s(at(2))),
                Vec3::new(s(at(3)), s(at(4)), s(at(5))),
            )
        })
        .collect()
}

fn build(boxes: Vec<AABB>) -> (BVH, usize) {
    let mut builder = BvhBuilder::new(boxes).unwrap();
    let mut splits = 0;
    while let Some(bounds) = builder.request() {
        let extent = |i: Interval| s(f(i.max) - f(i.min));
        builder = builder.supply(extent(bounds.x), extent(bounds.y), extent(bounds.z));
        splits += 1;
    }
    (builder.finish(), splits)
}

#[test]
fn the_search_is_the_recursion_for_any_answers() {
    for count in 1..30usize {
        let (tree, _) = build(boxes(count, 17));
        for seed in 0..200u64 {
            let window = Interval::new(s(0.001), s(100.0 + seed as f32));
            let mut expected = None;
            let hit = walk(&tree, seed, &window, &mut expected);
            assert_eq!(hit, expected.is_some());

            let mut search = tree.hit(&window);
            let mut steps = 0;
            loop {
                match search.probe() {
                    Probe::Bounds(bbox, w) => search.answer_bounds(pass(seed, &bbox, &w)),
                    Probe::Primitive(index, w) => search.answer_primitive(test(seed, index, &w)),
                    Probe::Done => break,
                }
                steps += 1;
            }
            assert_eq!(search.result(), expected);
            // a box and a primitive for each leaf, a box for each branch
            assert!(steps <= 2 * count + (count - 1));
        }
    }
}

#[test]
fn the_scan_is_the_loop_for_any_answers() {
    for count in 0..30usize {
        let mut list = EntityList::new();
        for bbox in boxes(count, 5) {
            list.add(bbox);
        }
        for seed in 0..100u64 {
            let window = Interval::new(s(1.0), s(50.0 + seed as f32));
            let mut expected = None;
            let mut closest = window.max;
            for index in 0..count {
                if let Some(hit) = test(seed, index, &Interval::new(window.min, closest)) {
                    closest = hit.t;
                    expected = Some(hit);
                }
            }
            let mut scan = list.hit(&window);
            let mut asked = 0;
            while let Some((index, w)) = scan.query() {
                assert_eq!(index, asked);
                scan.answer(test(seed, index, &w));
                asked += 1;
            }
            assert_eq!(asked, count);
            assert_eq!(scan.result(), expected);
        }
    }
}

#[test]
fn a_hierarchy_over_n_primitives_takes_n_minus_one_splits() {
    for count in 1..60usize {
        let (tree, splits) = build(boxes(count, 23));
        assert_eq!(splits, count - 1);
        let mut depth_first = vec![&tree];
        let mut leaves = 0;
        let mut branches = 0;
        while let Some(node) = depth_first.pop() {
            match &node.tree {
                BVHNode::Leaf(_) => leaves += 1,
                BVHNode::Branch { left, right } => {
                    branches += 1;
                    depth_first.push(left);
                    depth_first.push(right);
                },
            }
        }
        assert_eq!(leaves, count);
        assert_eq!(branches, count - 1);
    }
}

#[test]
fn bounds_that_are_no_numbers_are_ordered_beyond_the_infinities() {
    let at = |x: f32| AABB::span(Vec3::new(s(x), s(0.0), s(0.0)), Vec3::new(s(x), s(0.0), s(0.0)));
    let mut lost = at(0.0);
    lost.x.min = s(f32::NAN);
    let boxes = vec![lost, at(f32::INFINITY), at(2.0), at(f32::NEG_INFINITY)];
    let mut builder = BvhBuilder::new(boxes).unwrap();
    builder.request().unwrap();
    // the extents are given: X is the longest axis
    builder = builder.supply(s(5.0), s(1.0), s(1.0));
    while builder.request().is_some() {
        builder = builder.supply(s(5.0), s(1.0), s(1.0));
    }
    let tree = builder.finish();
    let mut order = Vec::new();
    let mut stack = vec![&tree];
    while let Some(node) = stack.pop() {
        match &node.tree {
            BVHNode::Leaf(p) => order.push(*p),
            BVHNode::Branch { left, right } => {
                stack.push(right);
                stack.push(left);
            },
        }
    }
    assert_eq!(order, vec![3, 2, 1, 0]);
}
