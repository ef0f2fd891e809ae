//! Axis-aligned bounding boxes.

use vstd::prelude::*;

use glam::DVec3;

use crate::vector::{below_on_axis, is_componentwise_max, is_componentwise_min};

verus! {

/// A box given by its smallest and its largest corner.
#[derive(Clone, Copy, Debug)]
pub struct AABB {
    min: DVec3,
    max: DVec3,
}

impl AABB {
    /// The smallest corner.
    pub closed spec fn min_corner(&self) -> DVec3 {
        self.min
    }

    /// The largest corner.
    pub closed spec fn max_corner(&self) -> DVec3 {
        self.max
    }

    /// The box spanned by the two corners.
    pub fn new(min: DVec3, max: DVec3) -> (r: Self)
        ensures
            r.min_corner() == min,
            r.max_corner() == max,
    {
        Self { min, max }
    }

    /// The box's smallest corner.
    pub fn min(&self) -> (r: DVec3)
        ensures
            r == self.min_corner(),
    {
        self.min
    }

    /// The box's largest corner.
    pub fn max(&self) -> (r: DVec3)
        ensures
            r == self.max_corner(),
    {
        self.max
    }

    /// Whether `self` is a box that `surrounding_box` may give for `a` and
    /// `b`: its smallest corner a componentwise minimum of theirs, its largest
    /// corner a componentwise maximum of theirs.
    pub open spec fn surrounds(&self, a: AABB, b: AABB) -> bool {
        &&& is_componentwise_min(a.min_corner(), b.min_corner(), self.min_corner())
        &&& is_componentwise_max(a.max_corner(), b.max_corner(), self.max_corner())
        &&& self.contains_box(a)
        &&& self.contains_box(b)
    }

    /// Whether `other` lies within `self`: on no axis is a component of
    /// `other`'s smallest corner below that of `self`'s, nor a component of
    /// `self`'s largest corner below that of `other`'s.
    pub open spec fn contains_box(&self, other: AABB) -> bool {
        forall|axis: u32|
            axis < 3 ==> !#[trigger] below_on_axis(other.min_corner(), self.min_corner(), axis)
                && !below_on_axis(self.max_corner(), other.max_corner(), axis)
    }

    /// The smallest box holding both boxes: the componentwise minimum of the
    /// smallest corners and the componentwise maximum of the largest corners.
    pub fn surrounding_box(box0: Self, box1: Self) -> (r: Self)
        ensures
            r.surrounds(box0, box1),
    {
        let small = box0.min.min(box1.min);
        let large = box0.max.max(box1.max);
        Self::new(small, large)
    }
}

/// The box that `surrounding_box` gives for two boxes contains both of them.
pub proof fn lemma_surrounding_box_contains_both(a: AABB, b: AABB, r: AABB)
    requires
        r.surrounds(a, b),
    ensures
        r.contains_box(a),
        r.contains_box(b),
{
}

/// Whether every entry of `boxes` holds a box.
pub open spec fn all_bounded(boxes: Seq<Option<AABB>>) -> bool {
    forall|i: int| 0 <= i < boxes.len() ==> #[trigger] boxes[i] is Some
}

/// Whether `chain` holds, for each prefix of `boxes`, a box that combining
/// that prefix from the first on may give: the first box itself, then each
/// next entry's box surrounded together with the box before it.
pub open spec fn is_fold_chain(boxes: Seq<Option<AABB>>, chain: Seq<AABB>) -> bool {
    &&& chain.len() == boxes.len()
    &&& chain.len() > 0
    &&& chain[0] == boxes[0]->Some_0
    &&& forall|i: int|
        1 <= i < chain.len() ==> #[trigger] chain[i].surrounds(chain[i - 1], boxes[i]->Some_0)
}

/// Whether `r` is a box that combining all of `boxes` from the first on may
/// give, each into the box of those before it with `surrounding_box`.
pub open spec fn encloses_in_order(boxes: Seq<Option<AABB>>, r: AABB) -> bool {
    exists|chain: Seq<AABB>| #[trigger] is_fold_chain(boxes, chain) && chain.last() == r
}

impl AABB {
    /// The box enclosing all the given boxes, combined in order with
    /// `surrounding_box`; `None` where there is no box or one of them is
    /// missing.
    pub fn enclosing(boxes: &[Option<AABB>]) -> (r: Option<AABB>)
        ensures
            r is None <==> boxes@.len() == 0 || !all_bounded(boxes@),
            r is Some ==> encloses_in_order(boxes@, r->Some_0),
    {
        if boxes.len() == 0 {
            return None;
        }
        let mut acc = match boxes[0] {
            Some(b) => b,
            None => return None,
        };
        let ghost mut chain: Seq<AABB> = seq![acc];
        let mut i: usize = 1;
        while i < boxes.len()
            invariant
                1 <= i <= boxes@.len(),
                all_bounded(boxes@.subrange(0, i as int)),
                is_fold_chain(boxes@.subrange(0, i as int), chain),
                chain.last() == acc,
            decreases boxes@.len() - i,
        {
            match boxes[i] {
                Some(b) => {
                    let next = Self::surrounding_box(acc, b);
                    proof {
                        let prefix = boxes@.subrange(0, i + 1);
                        let longer = chain.push(next);
                        assert(is_fold_chain(prefix, longer)) by {
                            assert forall|m: int| 1 <= m < longer.len() implies #[trigger] longer[m].surrounds(
                                longer[m - 1],
                                prefix[m]->Some_0,
                            ) by {
                                if m < i {
                                    assert(longer[m] == chain[m] && longer[m - 1] == chain[m - 1]);
                                    assert(prefix[m] == boxes@.subrange(0, i as int)[m]);
                                }
                            }
                        }
                        chain = longer;
                    }
                    assert(all_bounded(boxes@.subrange(0, i + 1)));
                    acc = next;
                },
                None => {
                    assert(boxes@.subrange(0, i + 1).len() > 0);
                    return None;
                },
            }
            i = i + 1;
        }
        assert(boxes@.subrange(0, boxes@.len() as int) =~= boxes@);
        assert(is_fold_chain(boxes@, chain));
        Some(acc)
    }
}

} // verus!
