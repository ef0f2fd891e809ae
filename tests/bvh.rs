use glam::DVec3;
use raytracer::aabb::AABB;
use raytracer::bvh::BVH;

fn unit_box_at(x: f64, y: f64, z: f64) -> AABB {
    AABB::new(DVec3::new(x, y, z), DVec3::new(x + 1.0, y + 1.0, z + 1.0))
}

fn items(n: usize) -> Vec<(usize, AABB)> {
    (0..n)
        .map(|i| {
            let f = i as f64;
            (i, unit_box_at((f * 7.0) % 13.0, (f * 3.0) % 11.0 - 5.0, -(f * 5.0) % 17.0))
        })
        .collect()
}

/// The leaves' objects and boxes from left to right.
fn leaves(node: &BVH<usize>, out: &mut Vec<(usize, AABB)>) {
    match node {
        BVH::Leaf { object, bbox } => out.push((**object, *bbox)),
        BVH::Internal { left, right, .. } => {
            leaves(left, out);
            leaves(right, out);
        }
    }
}

/// Checks every internal node's box and split, and returns the number of
/// objects below `node`.
fn check_node(node: &BVH<usize>) -> usize {
    match node {
        BVH::Leaf { .. } => 1,
        BVH::Internal { left, right, bbox } => {
            let l = check_node(left);
            let r = check_node(right);
            assert_eq!(l, (l + r) / 2);
            let lb = left.get_box();
            let rb = right.get_box();
            assert_eq!(bbox.min(), lb.min().min(rb.min()));
            assert_eq!(bbox.max(), lb.max().max(rb.max()));
            let mut lefts = Vec::new();
            let mut rights = Vec::new();
            leaves(left, &mut lefts);
            leaves(right, &mut rights);
            let apart_on = |axis: usize| {
                lefts.iter().all(|(_, a)| rights.iter().all(|(_, b)| !(b.min()[axis] < a.min()[axis])))
            };
            assert!(apart_on(0) || apart_on(1) || apart_on(2));
            l + r
        }
    }
}

fn check_tree(n: usize) {
    let input = items(n);
    let tree = BVH::new(input.clone());
    assert_eq!(check_node(&tree), n);
    let mut found = Vec::new();
    leaves(&tree, &mut found);
    found.sort_by_key(|(i, _)| *i);
    assert_eq!(found.len(), n);
    for ((i, b), (j, c)) in found.iter().zip(input.iter()) {
        assert_eq!(i, j);
        assert_eq!(b.min(), c.min());
        assert_eq!(b.max(), c.max());
    }
}

#[test]
fn one_object_is_a_leaf_with_its_box() {
    let b = unit_box_at(1.0, 2.0, 3.0);
    let tree = BVH::new(vec![(42usize, b)]);
    match &tree {
        BVH::Leaf { object, bbox } => {
            assert_eq!(**object, 42);
            assert_eq!(bbox.min(), b.min());
            assert_eq!(bbox.max(), b.max());
        }
        BVH::Internal { .. } => panic!("one object makes a leaf"),
    }
    assert_eq!(tree.get_box().max(), b.max());
}

#[test]
fn two_objects_make_one_internal_node() {
    let a = unit_box_at(0.0, 0.0, 0.0);
    let b = unit_box_at(5.0, -2.0, 8.0);
    let tree = BVH::new(vec![(0usize, a), (1usize, b)]);
    match &tree {
        BVH::Internal { left, right, bbox } => {
            assert!(matches!(**left, BVH::Leaf { .. }));
            assert!(matches!(**right, BVH::Leaf { .. }));
            assert_eq!(bbox.min(), DVec3::new(0.0, -2.0, 0.0));
            assert_eq!(bbox.max(), DVec3::new(6.0, 1.0, 9.0));
        }
        BVH::Leaf { .. } => panic!("two objects make an internal node"),
    }
}

#[test]
fn root_box_encloses_every_object() {
    let input = items(50);
    let tree = BVH::new(input.clone());
    let root = tree.get_box();
    for (_, b) in input {
        assert!(root.min().cmple(b.min()).all());
        assert!(root.max().cmpge(b.max()).all());
    }
}

#[test]
fn every_object_stands_in_one_leaf_for_several_sizes() {
    for n in [1usize, 2, 3, 7, 50, 500] {
        check_tree(n);
    }
}

#[test]
fn equal_boxes_all_stay() {
    let b = unit_box_at(0.0, 0.0, 0.0);
    let input: Vec<(usize, AABB)> = (0..9).map(|i| (i, b)).collect();
    let tree = BVH::new(input);
    assert_eq!(check_node(&tree), 9);
    let mut found = Vec::new();
    leaves(&tree, &mut found);
    let mut ids: Vec<usize> = found.iter().map(|(i, _)| *i).collect();
    ids.sort();
    assert_eq!(ids, (0..9).collect::<Vec<usize>>());
}
