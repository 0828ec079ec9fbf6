use vstd::prelude::*;

verus! {

/// The Fibonacci sequence: F(0) = 0, F(1) = 1, F(n) = F(n - 1) + F(n - 2).
pub open spec fn fib(n: nat) -> nat
    decreases n,
{
    if n == 0 {
        0
    } else if n == 1 {
        1
    } else {
        fib((n - 1) as nat) + fib((n - 2) as nat)
    }
}

/// What every function of this library returns for index `n`: `F(n)` when it
/// fits in a `u32`, and `None` when it does not.
pub open spec fn fib_result(n: nat) -> Option<u32> {
    if fib(n) <= u32::MAX {
        Some(fib(n) as u32)
    } else {
        None
    }
}

/// The pair (F(n), F(n + 1)), computed in `n` steps.
spec fn fib_pair(n: nat) -> (nat, nat)
    decreases n,
{
    if n == 0 {
        (0, 1)
    } else {
        let p = fib_pair((n - 1) as nat);
        (p.1, p.0 + p.1)
    }
}

proof fn lemma_fib_pair(n: nat)
    ensures
        fib_pair(n) == (fib(n), fib(n + 1)),
    decreases n,
{
    if n > 0 {
        lemma_fib_pair((n - 1) as nat);
    }
}

/// The last Fibonacci number that fits in a `u32`, and the first that does not.
pub proof fn lemma_fib_boundary()
    ensures
        fib(46) == 1836311903,
        fib(47) == 2971215073,
        fib(48) == 4807526976,
{
    lemma_fib_pair(46);
    lemma_fib_pair(47);
    assert(fib_pair(8) == (21nat, 34nat)) by {
        reveal_with_fuel(fib_pair, 9);
    }
    assert(fib_pair(16) == (987nat, 1597nat)) by {
        reveal_with_fuel(fib_pair, 9);
    }
    assert(fib_pair(24) == (46368nat, 75025nat)) by {
        reveal_with_fuel(fib_pair, 9);
    }
    assert(fib_pair(32) == (2178309nat, 3524578nat)) by {
        reveal_with_fuel(fib_pair, 9);
    }
    assert(fib_pair(40) == (102334155nat, 165580141nat)) by {
        reveal_with_fuel(fib_pair, 9);
    }
    assert(fib_pair(46) == (1836311903nat, 2971215073nat)) by {
        reveal_with_fuel(fib_pair, 7);
    }
    assert(fib_pair(47) == (2971215073nat, 4807526976nat));
}

/// The sequence never decreases.
pub proof fn lemma_fib_monotonic(i: nat, j: nat)
    requires
        i <= j,
    ensures
        fib(i) <= fib(j),
    decreases j - i,
{
    if i < j {
        lemma_fib_monotonic(i, (j - 1) as nat);
        if j >= 2 {
            assert(fib(j) == fib((j - 1) as nat) + fib((j - 2) as nat));
        }
    }
}

/// `F(n)` fits in a `u32` exactly for the indices up to 47.
pub proof fn lemma_fib_fits(n: nat)
    ensures
        fib(n) <= u32::MAX <==> n <= 47,
{
    lemma_fib_boundary();
    if n <= 47 {
        lemma_fib_monotonic(n, 47);
    } else {
        lemma_fib_monotonic(48, n);
    }
}

/// The first Fibonacci number with the high bit of a `u32` set is F(47).
pub proof fn lemma_fib_high_bit(i: nat)
    requires
        fib(i) >= 0x8000_0000,
    ensures
        i >= 47,
{
    lemma_fib_boundary();
    if i <= 46 {
        lemma_fib_monotonic(i, 46);
    }
}

/// The register pair (F(k), F(k - 1)) after `k` rotation steps from (0, 1),
/// or `None` once a step has overflowed.
pub open spec fn fib_regs(k: nat) -> Option<(u32, u32)> {
    if k == 0 {
        Some((0, 1))
    } else if k <= 47 {
        Some((fib(k) as u32, fib((k - 1) as nat) as u32))
    } else {
        None
    }
}

/// One rotation step: (x, y) becomes (x + y, x), or `None` where the sum
/// does not fit; `None` stays `None`.
pub open spec fn regs_step(regs: Option<(u32, u32)>) -> Option<(u32, u32)> {
    match regs {
        Some((x, y)) => if x + y <= u32::MAX {
            Some(((x + y) as u32, x))
        } else {
            None
        },
        None => None,
    }
}

/// A step from the registers after `k` steps gives the registers after
/// `k + 1`, and the first register after `k` steps is what index `k` owes.
pub proof fn lemma_fib_regs(k: nat)
    ensures
        regs_step(fib_regs(k)) == fib_regs(k + 1),
        fib_regs(k) is Some <==> fib_result(k) is Some,
        fib_regs(k) is Some ==> fib_result(k) == Some(fib_regs(k).unwrap().0),
{
    lemma_fib_fits(k);
    lemma_fib_fits(k + 1);
    if k >= 1 {
        lemma_fib_fits((k - 1) as nat);
    }
}

} // verus!
