use vstd::prelude::*;
use crate::fold::fold_step;
use crate::spec::{fib_regs, fib_result, lemma_fib_fits, lemma_fib_regs};

verus! {

/// The Fibonacci numbers drawn one at a time, from F(0) on. Once a term no
/// longer fits in a `u32` the sequence is exhausted and yields `None` forever.
pub struct FibTerms {
    regs: Option<(u32, u32)>,
    drawn: Ghost<nat>,
}

impl FibTerms {
    /// How many terms have been drawn so far: the index of the next one.
    pub closed spec fn drawn(&self) -> nat {
        self.drawn@
    }

    /// The registers are those after as many rotation steps as terms drawn.
    pub closed spec fn wf(&self) -> bool {
        self.regs == fib_regs(self.drawn@)
    }

    /// A fresh sequence, positioned at F(0).
    pub fn new() -> (g: FibTerms)
        ensures
            g.wf(),
            g.drawn() == 0,
    {
        FibTerms { regs: Some((0u32, 1u32)), drawn: Ghost(0) }
    }

    /// Yields the next term, or `None` once the sequence is exhausted.
    pub fn next_term(&mut self) -> (r: Option<u32>)
        requires
            old(self).wf(),
        ensures
            final(self).wf(),
            final(self).drawn() == old(self).drawn() + 1,
            r == fib_result(old(self).drawn()),
    {
        proof {
            lemma_fib_regs(self.drawn@);
        }
        let r = match self.regs {
            Some((x, _)) => Some(x),
            None => None,
        };
        self.regs = fold_step(self.regs);
        self.drawn = Ghost(self.drawn@ + 1);
        r
    }
}

/// Draws terms from a fresh [`FibTerms`] until the one of index `n`; an
/// exhausted sequence before it gives `None`.
pub fn fib_lazy(n: usize) -> (r: Option<u32>)
    ensures
        r == fib_result(n as nat),
{
    let mut terms = FibTerms::new();
    let mut k: usize = 0;
    while k < n
        invariant
            k <= n,
            terms.wf(),
            terms.drawn() == k,
        decreases n - k,
    {
        match terms.next_term() {
            Some(_) => {},
            None => {
                proof {
                    lemma_fib_fits(k as nat);
                    lemma_fib_fits(n as nat);
                }
                return None;
            },
        }
        k += 1;
    }
    terms.next_term()
}

} // verus!
