//! Two-dimensional integer vectors, added through `vecmath`.

use vstd::prelude::*;

verus! {

pub open spec fn fits_i32(x: int) -> bool {
    i32::MIN <= x <= i32::MAX
}

/// Whether the component-wise sum of `a` and `b` stays within `i32`.
pub open spec fn sum_fits(a: [i32; 2], b: [i32; 2]) -> bool {
    fits_i32(a[0] + b[0]) && fits_i32(a[1] + b[1])
}

/// Relies on vecmath::vec2_add: component-wise addition with `+`, which
/// panics on overflow in checked builds, hence the `requires`.
#[verifier::external_body]
pub(crate) fn vec2_add(a: [i32; 2], b: [i32; 2]) -> (r: [i32; 2])
    requires
        sum_fits(a, b),
    ensures
        r[0] == a[0] + b[0],
        r[1] == a[1] + b[1],
{
    vecmath::vec2_add(a, b)
}

} // verus!
