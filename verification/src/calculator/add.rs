use vstd::prelude::*;

verus! {

/// Exact addition; the operands must not overflow the result type.
pub fn add(a: i32, b: i32) -> (r: i32)
    requires
        i32::MIN <= a + b <= i32::MAX,
    ensures
        r == a + b,
{
    a + b
}

} // verus!
