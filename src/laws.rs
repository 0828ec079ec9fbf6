use vstd::prelude::*;
use crate::spec::{fib, fib_result, lemma_fib_fits};

verus! {

/// Every function of this library returns `fib_result(n)`, which depends on
/// the index alone: two results computed for the same index, whether by two
/// different functions or by two calls of the same one, are equal.
pub proof fn law_same_index_same_result(n: nat, first: Option<u32>, second: Option<u32>)
    requires
        first == fib_result(n),
        second == fib_result(n),
    ensures
        first == second,
{
}

/// A present result is the exact Fibonacci number of its index: no value
/// that wrapped around is ever returned.
pub proof fn law_no_false_positive(n: nat, v: u32)
    requires
        fib_result(n) == Some(v),
    ensures
        v as nat == fib(n),
{
}

/// The result is present exactly for the indices up to 47, and absent from
/// 48 on, where F(48) = 4807526976 already exceeds `u32::MAX`.
pub proof fn law_present_iff_fits(n: nat)
    ensures
        fib_result(n) is Some <==> n <= 47,
        n >= 48 ==> fib_result(n) == None::<u32>,
        n <= 47 ==> fib_result(n) == Some(fib(n) as u32),
{
    lemma_fib_fits(n);
}

} // verus!
