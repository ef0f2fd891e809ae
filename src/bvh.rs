//! Bounding volume hierarchy: a binary tree over scene objects whose every
//! node carries a box enclosing the objects below it.

use vstd::prelude::*;

use crate::aabb::AABB;
use crate::random::random_below;
use crate::vector::{below_on_axis, component_below};

verus! {

broadcast use vstd::seq_lib::group_to_multiset_ensures;

/// A node of the hierarchy: a leaf holds one object and its box; an internal
/// node holds two subtrees and the box enclosing both.
#[derive(Debug)]
pub enum BVH<T> {
    Leaf { object: Box<T>, bbox: AABB },
    Internal { left: Box<BVH<T>>, right: Box<BVH<T>>, bbox: AABB },
}

/// No item of `s` has a smallest corner below that of an item before it on
/// `axis`.
pub open spec fn sorted_on_axis<T>(s: Seq<(T, AABB)>, axis: u32) -> bool {
    forall|i: int, j: int|
        #![trigger s[i], s[j]]
        0 <= i < j < s.len() ==> !below_on_axis(s[j].1.min_corner(), s[i].1.min_corner(), axis)
}

/// No item of `right` has a smallest corner below that of an item of `left`
/// on `axis`.
pub open spec fn ordered_apart<T>(left: Seq<(T, AABB)>, right: Seq<(T, AABB)>, axis: u32) -> bool {
    forall|i: int, j: int|
        #![trigger left[i], right[j]]
        0 <= i < left.len() && 0 <= j < right.len() ==> !below_on_axis(
            right[j].1.min_corner(),
            left[i].1.min_corner(),
            axis,
        )
}

/// Inserting `x` at `k` keeps `s` sorted when no item before `k` lies above
/// `x`'s corner and the item at `k` lies above it.
proof fn lemma_insert_sorted<T>(s: Seq<(T, AABB)>, k: int, x: (T, AABB), axis: u32)
    requires
        sorted_on_axis(s, axis),
        0 <= k <= s.len(),
        forall|m: int| 0 <= m < k ==> !below_on_axis(x.1.min_corner(), #[trigger] s[m].1.min_corner(), axis),
        k < s.len() ==> !below_on_axis(s[k].1.min_corner(), x.1.min_corner(), axis),
        k < s.len() ==> forall|c| #[trigger]
            below_on_axis(c, x.1.min_corner(), axis) ==> below_on_axis(c, s[k].1.min_corner(), axis),
    ensures
        sorted_on_axis(s.insert(k, x), axis),
{
    let t = s.insert(k, x);
    assert forall|i: int, j: int| 0 <= i < j < t.len() implies !below_on_axis(
        t[j].1.min_corner(),
        t[i].1.min_corner(),
        axis,
    ) by {
        if i < k {
            if j > k {
                assert(t[j] == s[j - 1] && t[i] == s[i]);
            }
        } else if i == k {
            assert(t[j] == s[j - 1]);
            if j - 1 > k {
                assert(!below_on_axis(s[j - 1].1.min_corner(), s[k].1.min_corner(), axis));
            }
        } else {
            assert(t[j] == s[j - 1] && t[i] == s[i - 1]);
        }
    }
}

/// Sorted items split anywhere leave no item of the second part below one of
/// the first.
proof fn lemma_split_apart<T>(s: Seq<(T, AABB)>, h: int, axis: u32)
    requires
        sorted_on_axis(s, axis),
        0 <= h <= s.len(),
    ensures
        ordered_apart(s.subrange(0, h), s.subrange(h, s.len() as int), axis),
{
    let l = s.subrange(0, h);
    let r = s.subrange(h, s.len() as int);
    assert forall|i: int, j: int| 0 <= i < l.len() && 0 <= j < r.len() implies !below_on_axis(
        r[j].1.min_corner(),
        l[i].1.min_corner(),
        axis,
    ) by {
        assert(l[i] == s[i] && r[j] == s[h + j]);
    }
}

/// Being ordered apart depends only on which items each side holds.
proof fn lemma_apart_same_items<T>(
    l1: Seq<(T, AABB)>,
    r1: Seq<(T, AABB)>,
    l2: Seq<(T, AABB)>,
    r2: Seq<(T, AABB)>,
    axis: u32,
)
    requires
        ordered_apart(l1, r1, axis),
        l1.to_multiset() == l2.to_multiset(),
        r1.to_multiset() == r2.to_multiset(),
    ensures
        ordered_apart(l2, r2, axis),
{
    assert forall|i: int, j: int| 0 <= i < l2.len() && 0 <= j < r2.len() implies !below_on_axis(
        r2[j].1.min_corner(),
        l2[i].1.min_corner(),
        axis,
    ) by {
        let x = l2[i];
        let y = r2[j];
        assert(l2.contains(x));
        assert(r2.contains(y));
        assert(l1.to_multiset().count(x) > 0);
        assert(r1.to_multiset().count(y) > 0);
        let i1 = choose|i1: int| 0 <= i1 < l1.len() && l1[i1] == x;
        let j1 = choose|j1: int| 0 <= j1 < r1.len() && r1[j1] == y;
        assert(!below_on_axis(r1[j1].1.min_corner(), l1[i1].1.min_corner(), axis));
    }
}

/// Orders `items` along `axis` by the smallest corners of their boxes, by
/// insertion: each item goes before the first item already placed whose
/// corner lies above its own. The result holds the same items.
fn sort_on_axis<T>(items: Vec<(T, AABB)>, axis: u32) -> (r: Vec<(T, AABB)>)
    requires
        axis < 3,
    ensures
        r@.to_multiset() == items@.to_multiset(),
        sorted_on_axis(r@, axis),
{
    let mut rest = items;
    let mut sorted: Vec<(T, AABB)> = Vec::new();
    while rest.len() > 0
        invariant
            axis < 3,
            sorted@.to_multiset().add(rest@.to_multiset()) == items@.to_multiset(),
            sorted_on_axis(sorted@, axis),
        decreases rest@.len(),
    {
        let ghost before = rest@;
        let item = rest.pop().unwrap();
        assert(before == rest@.push(item));
        let mut k: usize = 0;
        while k < sorted.len()
            invariant
                axis < 3,
                k <= sorted@.len(),
                forall|m: int|
                    0 <= m < k ==> !below_on_axis(
                        item.1.min_corner(),
                        #[trigger] sorted@[m].1.min_corner(),
                        axis,
                    ),
            ensures
                k <= sorted@.len(),
                forall|m: int|
                    0 <= m < k ==> !below_on_axis(
                        item.1.min_corner(),
                        #[trigger] sorted@[m].1.min_corner(),
                        axis,
                    ),
                k < sorted@.len() ==> !below_on_axis(
                    sorted@[k as int].1.min_corner(),
                    item.1.min_corner(),
                    axis,
                ),
                k < sorted@.len() ==> forall|c| #[trigger]
                    below_on_axis(c, item.1.min_corner(), axis) ==> below_on_axis(
                        c,
                        sorted@[k as int].1.min_corner(),
                        axis,
                    ),
            decreases sorted@.len() - k,
        {
            if component_below(item.1.min(), sorted[k].1.min(), axis) {
                break;
            }
            k = k + 1;
        }
        proof {
            lemma_insert_sorted(sorted@, k as int, item, axis);
        }
        sorted.insert(k, item);
    }
    assert(rest@ =~= Seq::<(T, AABB)>::empty());
    sorted
}

impl<T> BVH<T> {
    /// The box of this node.
    pub open spec fn bbox_spec(&self) -> AABB {
        match self {
            BVH::Leaf { bbox, .. } => *bbox,
            BVH::Internal { bbox, .. } => *bbox,
        }
    }

    /// The objects at the leaves from left to right, each with its leaf's box.
    pub open spec fn entries(&self) -> Seq<(T, AABB)>
        decreases self,
    {
        match self {
            BVH::Leaf { object, bbox } => seq![(**object, *bbox)],
            BVH::Internal { left, right, .. } => left.entries() + right.entries(),
        }
    }

    /// Every internal node's box is the one `surrounding_box` gives for its
    /// two children's boxes; along some axis no object of its right subtree
    /// has a smallest corner below that of an object of its left subtree; and
    /// its left subtree holds half of its objects, rounded down.
    pub open spec fn well_formed(&self) -> bool
        decreases self,
    {
        match self {
            BVH::Leaf { .. } => true,
            BVH::Internal { left, right, bbox } => {
                &&& left.well_formed()
                &&& right.well_formed()
                &&& bbox.surrounds(left.bbox_spec(), right.bbox_spec())
                &&& exists|axis: u32|
                    axis < 3 && #[trigger] ordered_apart(left.entries(), right.entries(), axis)
                &&& left.entries().len() == (left.entries().len() + right.entries().len()) / 2
            },
        }
    }

    /// The hierarchy over the given objects, each paired with its box, which
    /// becomes its leaf's box. Each node orders its objects along an axis
    /// drawn uniformly from x, y and z by the smallest corners of their boxes,
    /// then puts the first half (rounded down) in its left subtree and the
    /// rest in its right. The order decides only the shape of the tree: every
    /// object stands in exactly one leaf whatever it is.
    pub fn new(items: Vec<(T, AABB)>) -> (r: Self)
        requires
            items@.len() > 0,
        ensures
            r.well_formed(),
            r.entries().to_multiset() == items@.to_multiset(),
        decreases items@.len(),
    {
        let axis = random_below(3) as u32;
        let mut items = sort_on_axis(items, axis);
        let n = items.len();
        proof {
            assert(items@.to_multiset().len() == items@.len());
        }
        if n == 1 {
            let ghost all = items@;
            let (object, bbox) = items.pop().unwrap();
            assert(all =~= seq![(object, bbox)]);
            BVH::Leaf { object: Box::new(object), bbox }
        } else {
            let ghost all = items@;
            let right_items = items.split_off(n / 2);
            proof {
                assert(all =~= items@ + right_items@);
                assert(items@ =~= all.subrange(0, (n / 2) as int));
                assert(right_items@ =~= all.subrange((n / 2) as int, n as int));
                lemma_split_apart(all, (n / 2) as int, axis);
                vstd::seq_lib::lemma_multiset_commutative(items@, right_items@);
            }
            let ghost left_items = items@;
            let ghost right_seq = right_items@;
            let right = Self::new(right_items);
            let left = Self::new(items);
            proof {
                vstd::seq_lib::lemma_multiset_commutative(left.entries(), right.entries());
                lemma_apart_same_items(
                    left_items,
                    right_seq,
                    left.entries(),
                    right.entries(),
                    axis,
                );
            }
            let bbox = AABB::surrounding_box(left.get_box(), right.get_box());
            BVH::Internal { left: Box::new(left), right: Box::new(right), bbox }
        }
    }

    /// The box of this node.
    pub fn get_box(&self) -> (r: AABB)
        ensures
            r == self.bbox_spec(),
    {
        match self {
            BVH::Leaf { bbox, .. } => *bbox,
            BVH::Internal { bbox, .. } => *bbox,
        }
    }
}

impl<T: Clone> BVH<T> {
    /// A copy of the tree, node by node, with each object cloned.
    fn duplicate(&self) -> (r: Self)
        ensures
            r.bbox_spec() == self.bbox_spec(),
            r.entries().len() == self.entries().len(),
            forall|i: int| 0 <= i < r.entries().len() ==> #[trigger] r.entries()[i].1 == self.entries()[i].1,
            self.well_formed() ==> r.well_formed(),
        decreases self,
    {
        match self {
            BVH::Leaf { object, bbox } => BVH::Leaf {
                object: Box::new(T::clone(&**object)),
                bbox: *bbox,
            },
            BVH::Internal { left, right, bbox } => {
                let l = left.duplicate();
                let rt = right.duplicate();
                let r = BVH::Internal { left: Box::new(l), right: Box::new(rt), bbox: *bbox };
                proof {
                    let le = left.entries();
                    let re = right.entries();
                    assert forall|i: int| 0 <= i < r.entries().len() implies #[trigger] r.entries()[i].1
                        == self.entries()[i].1 by {
                        if i < le.len() {
                            assert(r.entries()[i] == l.entries()[i]);
                            assert(self.entries()[i] == le[i]);
                        } else {
                            assert(r.entries()[i] == rt.entries()[i - le.len()]);
                            assert(self.entries()[i] == re[i - le.len()]);
                        }
                    }
                    if self.well_formed() {
                        let axis = choose|axis: u32|
                            axis < 3 && #[trigger] ordered_apart(le, re, axis);
                        assert(ordered_apart(l.entries(), rt.entries(), axis)) by {
                            assert forall|i: int, j: int|
                                0 <= i < l.entries().len() && 0 <= j < rt.entries().len()
                                implies !below_on_axis(
                                rt.entries()[j].1.min_corner(),
                                l.entries()[i].1.min_corner(),
                                axis,
                            ) by {
                                assert(l.entries()[i].1 == le[i].1);
                                assert(rt.entries()[j].1 == re[j].1);
                            }
                        }
                    }
                }
                r
            },
        }
    }
}

impl<T: Clone> Clone for BVH<T> {
    fn clone(&self) -> (r: Self)
        ensures
            r.bbox_spec() == self.bbox_spec(),
            r.entries().len() == self.entries().len(),
            forall|i: int| 0 <= i < r.entries().len() ==> #[trigger] r.entries()[i].1 == self.entries()[i].1,
            self.well_formed() ==> r.well_formed(),
    {
        self.duplicate()
    }
}

} // verus!
