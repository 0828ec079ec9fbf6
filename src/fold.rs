use vstd::prelude::*;
use crate::spec::{fib_regs, fib_result, lemma_fib_fits, lemma_fib_regs, regs_step};

verus! {

/// One rotation step with a checked addition; a failure is carried along.
pub(crate) fn fold_step(regs: Option<(u32, u32)>) -> (r: Option<(u32, u32)>)
    ensures
        r == regs_step(regs),
{
    match regs {
        Some((x, y)) => match x.checked_add(y) {
            Some(z) => Some((z, x)),
            None => None,
        },
        None => None,
    }
}

/// Folds `n` rotation steps over the pair (0, 1) and keeps the first
/// register. After a failed step every further step would only pass the
/// failure on, so the fold stops there.
pub fn fib_fold(n: usize) -> (r: Option<u32>)
    ensures
        r == fib_result(n as nat),
{
    let mut regs: Option<(u32, u32)> = Some((0u32, 1u32));
    let mut k: usize = 0;
    while k < n
        invariant
            k <= n,
            regs == fib_regs(k as nat),
        ensures
            k == n || regs is None,
        decreases n - k,
    {
        if regs.is_none() {
            break;
        }
        proof {
            lemma_fib_regs(k as nat);
        }
        regs = fold_step(regs);
        k += 1;
    }
    proof {
        lemma_fib_regs(k as nat);
        lemma_fib_regs(n as nat);
        lemma_fib_fits(k as nat);
        lemma_fib_fits(n as nat);
    }
    match regs {
        Some((x, _)) => Some(x),
        None => None,
    }
}

} // verus!
