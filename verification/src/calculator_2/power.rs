use vstd::prelude::*;
use vstd::arithmetic::power::pow;
use vstd::arithmetic::power::lemma_pow_increases;
use vstd::arithmetic::power::lemma_pow_positive;

verus! {

/// Exponentiation by repeated multiplication: `b` rounds of multiplying
/// by `a`. A non-positive exponent runs no rounds, leaving 1. A negative
/// base turns the first round's product into zero (see `mul` on negative
/// round counts), so the result is then zero. For a positive base the
/// final power must fit in the result type.
pub fn power(a: i32, b: i32) -> (r: i32)
    requires
        a >= 1 && b >= 1 ==> pow(a as int, b as nat) <= i32::MAX,
    ensures
        r == if b <= 0 {
            1int
        } else if a < 0 {
            0int
        } else {
            pow(a as int, b as nat)
        },
{
    let mut result: i32 = 1;
    let mut i: i32 = 0;
    proof {
        reveal(pow);
    }
    while i < b
        invariant
            b >= 0 ==> 0 <= i <= b,
            b < 0 ==> i == 0,
            b < 0 ==> result == 1,
            b >= 0 && a >= 0 ==> result == pow(a as int, i as nat),
            b >= 0 && a < 0 ==> result == if i == 0 {
                1int
            } else {
                0int
            },
            a >= 1 && b >= 1 ==> pow(a as int, b as nat) <= i32::MAX,
        decreases b - i,
    {
        proof {
            reveal(pow);
            assert(b >= 0);
            // Every partial product `result * k` for `0 <= k <= a` stays
            // within bounds, so the multiplication below cannot overflow.
            if a >= 1 {
                lemma_pow_positive(a as int, i as nat);
                assert(pow(a as int, (i + 1) as nat) == a * pow(a as int, i as nat));
                lemma_pow_increases(a as nat, (i + 1) as nat, b as nat);
                assert(a * pow(a as int, i as nat) <= i32::MAX);
                assert forall|k: int| 0 <= k <= a implies i32::MIN <= #[trigger] (result * k)
                    <= i32::MAX by {
                    assert(0 <= result * k <= result * a) by (nonlinear_arith)
                        requires
                            0 <= k <= a,
                            result >= 1,
                    ;
                    assert(result * a == a * result) by (nonlinear_arith);
                }
            } else if a == 0 {
                assert forall|k: int| 0 <= k <= a implies i32::MIN <= #[trigger] (result * k)
                    <= i32::MAX by {
                    assert(result * k == 0) by (nonlinear_arith)
                        requires
                            k == 0,
                    ;
                }
            }
        }
        let prev: i32 = result;
        result = crate::calculator_2::mul::mul(result, a);
        i = i + 1;
        proof {
            reveal(pow);
            if a >= 0 {
                assert(result == prev * a);
                assert(prev * a == a * prev) by (nonlinear_arith);
                assert(pow(a as int, i as nat) == a * pow(a as int, (i - 1) as nat));
            }
        }
    }
    result
}

} // verus!
