//! The three-component vector of `glam`, as the rest of the library sees it.
//!
//! Its components are floating-point numbers, which the library never reads:
//! a vector is carried through, and the componentwise operations that the
//! library needs are calls into `glam`.

use vstd::prelude::*;

verus! {

#[verifier::external_type_specification]
#[verifier::external_body]
pub struct ExDVec3(glam::DVec3);

/// Whether `r` may be the componentwise minimum of `a` and `b`: each of its
/// components is the smaller of the two at that position, either of them
/// where they compare equal.
pub uninterp spec fn is_componentwise_min(a: glam::DVec3, b: glam::DVec3, r: glam::DVec3) -> bool;

/// Whether `r` may be the componentwise maximum of `a` and `b`: each of its
/// components is the larger of the two at that position, either of them
/// where they compare equal.
pub uninterp spec fn is_componentwise_max(a: glam::DVec3, b: glam::DVec3, r: glam::DVec3) -> bool;

/// Relies on `glam::DVec3::min`: `[a.x.min(b.x), a.y.min(b.y), a.z.min(b.z)]`.
/// `f64::min` may return either input where they compare equal (`0.0` and
/// `-0.0`), so the result is one that the relation admits, not a function of
/// the inputs. It returns the smaller input, or the other one where one is
/// NaN, so no input lies below the result on any axis.
pub assume_specification[ glam::DVec3::min ](a: glam::DVec3, rhs: glam::DVec3) -> (r: glam::DVec3)
    ensures
        is_componentwise_min(a, rhs, r),
        forall|axis: u32| axis < 3 ==> !#[trigger] below_on_axis(a, r, axis),
        forall|axis: u32| axis < 3 ==> !#[trigger] below_on_axis(rhs, r, axis),
;

/// Relies on `glam::DVec3::max`: `[a.x.max(b.x), a.y.max(b.y), a.z.max(b.z)]`.
/// `f64::max` may return either input where they compare equal, so the
/// result is one that the relation admits, not a function of the inputs. It
/// returns the larger input, or the other one where one is NaN, so the
/// result lies below no input on any axis.
pub assume_specification[ glam::DVec3::max ](a: glam::DVec3, rhs: glam::DVec3) -> (r: glam::DVec3)
    ensures
        is_componentwise_max(a, rhs, r),
        forall|axis: u32| axis < 3 ==> !#[trigger] below_on_axis(r, a, axis),
        forall|axis: u32| axis < 3 ==> !#[trigger] below_on_axis(r, rhs, axis),
;

/// Which components of `a` lie below those of `b`: bit 0 for x, bit 1 for y
/// and bit 2 for z.
pub uninterp spec fn below_mask(a: glam::DVec3, b: glam::DVec3) -> u32;

/// Whether the component of `a` on `axis` (0 for x, 1 for y, 2 for z) lies
/// below that of `b`.
pub open spec fn below_on_axis(a: glam::DVec3, b: glam::DVec3, axis: u32) -> bool {
    (below_mask(a, b) >> axis) & 1 == 1
}

/// Relies on `glam::DVec3::cmplt`, which compares each pair of components
/// with `<`, read out through `glam::BVec3::bitmask`, which sets only the
/// lowest three bits, x in the lowest. `<` on `f64` is a strict partial order
/// (as `PartialOrd` requires): asymmetric and transitive on each axis.
#[verifier::external_body]
pub(crate) fn components_below(a: glam::DVec3, b: glam::DVec3) -> (r: u32)
    ensures
        r == below_mask(a, b),
        r < 8,
        forall|axis: u32| axis < 3 && (r >> axis) & 1 == 1 ==> !below_on_axis(b, a, axis),
        forall|c: glam::DVec3, axis: u32|
            axis < 3 && (r >> axis) & 1 == 1 && #[trigger] below_on_axis(b, c, axis)
                ==> below_on_axis(a, c, axis),
        forall|c: glam::DVec3, axis: u32|
            axis < 3 && (r >> axis) & 1 == 1 && #[trigger] below_on_axis(c, a, axis)
                ==> below_on_axis(c, b, axis),
{
    a.cmplt(b).bitmask()
}

/// Whether the component of `a` on `axis` lies below that of `b`.
pub fn component_below(a: glam::DVec3, b: glam::DVec3, axis: u32) -> (r: bool)
    requires
        axis < 3,
    ensures
        r == below_on_axis(a, b, axis),
        r ==> !below_on_axis(b, a, axis),
        r ==> forall|c: glam::DVec3| #[trigger]
            below_on_axis(b, c, axis) ==> below_on_axis(a, c, axis),
        r ==> forall|c: glam::DVec3| #[trigger]
            below_on_axis(c, a, axis) ==> below_on_axis(c, b, axis),
{
    let mask = components_below(a, b);
    (mask >> axis) & 1 == 1
}

} // verus!
