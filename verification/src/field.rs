//! The prime field that the wires of a circuit take their values from.

use vstd::arithmetic::div_mod::{
    lemma_fundamental_div_mod, lemma_mod_multiples_vanish, lemma_small_mod,
};
use vstd::prelude::*;

verus! {

/// The number of elements of the field: 2^64 - 2^32 + 1, which is a prime. An
/// element is held as the integer below `FIELD_ORDER` that stands for it.
///
/// That the number is prime is not proved in this crate. What the crate
/// proves of prime fields, it proves of every order that `is_prime` holds of.
pub const FIELD_ORDER: u64 = 0xFFFF_FFFF_0000_0001;

/// `order` is a prime number.
pub open spec fn is_prime(order: int) -> bool {
    &&& order >= 2
    &&& forall|divisor: int| 1 < divisor < order ==> #[trigger] (order % divisor) != 0
}

/// A prime that divides a product, and whose first factor lies strictly
/// between 0 and the prime, divides the second factor.
pub proof fn lemma_prime_divides_factor(order: int, a: int, b: int)
    requires
        is_prime(order),
        0 < a < order,
        (a * b) % order == 0,
    ensures
        b % order == 0,
    decreases a,
{
    if a == 1 {
        assert(a * b == b) by (nonlinear_arith)
            requires
                a == 1,
        ;
    } else {
        let quotient = order / a;
        let rest = order % a;
        lemma_fundamental_div_mod(order, a);
        assert(0 <= rest < a) by (nonlinear_arith)
            requires
                rest == order % a,
                a > 0,
        ;
        let multiple = (a * b) / order;
        lemma_fundamental_div_mod(a * b, order);
        assert(rest * b == order * (b - quotient * multiple)) by (nonlinear_arith)
            requires
                order == a * quotient + rest,
                a * b == order * multiple,
        ;
        lemma_mod_multiples_vanish(b - quotient * multiple, 0, order);
        assert((rest * b) % order == 0);
        lemma_prime_divides_factor(order, rest, b);
    }
}

/// In a prime field, `value * (value - 1) == 0` has the two solutions 0 and 1.
pub proof fn lemma_boolean_constraint(order: int, value: int)
    requires
        is_prime(order),
        0 <= value < order,
    ensures
        (value * (value - 1)) % order == 0 <==> (value == 0 || value == 1),
{
    if value == 0 || value == 1 {
        assert(value * (value - 1) == 0) by (nonlinear_arith)
            requires
                value == 0 || value == 1,
        ;
        lemma_small_mod(0, order as nat);
    } else if (value * (value - 1)) % order == 0 {
        lemma_prime_divides_factor(order, value, value - 1);
        lemma_small_mod((value - 1) as nat, order as nat);
    }
}

} // verus!
