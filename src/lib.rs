//! The `n`-th Fibonacci number, computed by several independent strategies.
//!
//! Every function returns `Some(F(n))` when `F(n)` fits in a `u32`, and
//! `None` otherwise; each one's contract says exactly that, through
//! [`fib_result`].
mod dynamic;
mod fold;
mod laws;
mod lazy;
mod lookup;
mod registered;
mod spec;

pub use dynamic::{fib_array, fib_vec, fib_vec_fancy};
pub use fold::fib_fold;
pub use laws::{law_no_false_positive, law_present_iff_fits, law_same_index_same_result};
pub use lazy::{fib_lazy, FibTerms};
pub use lookup::fib_lookup;
pub use registered::fib_registered;
pub use spec::{
    fib, fib_regs, fib_result, lemma_fib_boundary, lemma_fib_fits, lemma_fib_high_bit,
    lemma_fib_monotonic, lemma_fib_regs, regs_step,
};
