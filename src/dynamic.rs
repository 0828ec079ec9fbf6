use vstd::prelude::*;
use crate::spec::{fib, fib_result, lemma_fib_fits};

verus! {

/// Builds the whole sequence up to `n` in a growable buffer; indices of 48
/// and more are answered without computing, since F(48) does not fit.
pub fn fib_vec(n: usize) -> (r: Option<u32>)
    ensures
        r == fib_result(n as nat),
{
    proof {
        lemma_fib_fits(n as nat);
    }
    if n == 0 {
        return Some(0);
    }
    if n >= 48 {
        return None;
    }
    let mut dp: Vec<u32> = vec![0u32, 1];
    let mut i: usize = 2;
    while i <= n
        invariant
            2 <= i <= n + 1,
            n < 48,
            dp@.len() == i,
            forall|j: int| 0 <= j < i ==> dp@[j] == fib(j as nat),
        decreases n + 1 - i,
    {
        proof {
            lemma_fib_fits(i as nat);
        }
        dp.push(dp[i - 2] + dp[i - 1]);
        i += 1;
    }
    Some(dp[dp.len() - 1])
}

/// Builds the whole sequence up to `n` in a buffer sized up front, with
/// checked additions: the first one that overflows ends the computation.
pub fn fib_vec_fancy(n: usize) -> (r: Option<u32>)
    ensures
        r == fib_result(n as nat),
{
    // No more than F(0) to F(47) are ever stored, and a request for more
    // room than the allocator can give would panic.
    let capacity: usize = if n < 48 { n + 1 } else { 48 };
    let mut dp: Vec<u32> = Vec::with_capacity(capacity);
    dp.push(0);
    dp.push(1);
    let mut i: usize = 2;
    while i <= n
        invariant
            2 <= i <= 48,
            i <= n + 1 || i == 2,
            dp@.len() == i,
            forall|j: int| 0 <= j < i ==> dp@[j] == fib(j as nat),
        decreases 48 - i,
    {
        proof {
            lemma_fib_fits(i as nat);
        }
        match dp[i - 2].checked_add(dp[i - 1]) {
            Some(z) => dp.push(z),
            None => {
                proof {
                    lemma_fib_fits(n as nat);
                }
                return None;
            },
        }
        i += 1;
    }
    proof {
        lemma_fib_fits(n as nat);
    }
    Some(dp[n])
}

/// Keeps only the last two terms, (F(k - 1), F(k)), and rotates them with
/// checked additions.
pub fn fib_array(n: usize) -> (r: Option<u32>)
    ensures
        r == fib_result(n as nat),
{
    if n == 0 {
        return Some(0);
    }
    let mut dp: [u32; 2] = [0u32, 1];
    for k in 0..n - 1
        invariant
            n >= 1,
            dp[0] == fib(k as nat),
            dp[1] == fib(k as nat + 1),
    {
        proof {
            lemma_fib_fits(k as nat + 2);
        }
        match dp[0].checked_add(dp[1]) {
            Some(z) => {
                dp = [dp[1], z];
            },
            None => {
                proof {
                    lemma_fib_fits(n as nat);
                }
                return None;
            },
        }
    }
    proof {
        lemma_fib_fits(n as nat);
    }
    Some(dp[1])
}

} // verus!
