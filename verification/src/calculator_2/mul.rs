use vstd::prelude::*;

verus! {

/// Multiplication by repeated addition: `b` rounds of adding `a`. A
/// negative round count runs no rounds, so the product is then zero.
/// Every partial product must fit in the result type.
pub fn mul(a: i32, b: i32) -> (r: i32)
    requires
        forall|k: int| 0 <= k <= b ==> i32::MIN <= #[trigger] (a * k) <= i32::MAX,
    ensures
        r == if b >= 0 {
            a * b
        } else {
            0int
        },
{
    let mut result: i32 = 0;
    let mut i: i32 = 0;
    while i < b
        invariant
            b >= 0 ==> 0 <= i <= b,
            b < 0 ==> i == 0,
            result == if b >= 0 {
                a * i
            } else {
                0int
            },
            forall|k: int| 0 <= k <= b ==> i32::MIN <= #[trigger] (a * k) <= i32::MAX,
        decreases b - i,
    {
        proof {
            assert(a * (i + 1) == a * i + a) by (nonlinear_arith);
            assert(0 <= i + 1 <= b);
        }
        result = crate::calculator::add::add(result, a);
        i = i + 1;
    }
    result
}

} // verus!
