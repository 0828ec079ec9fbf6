use vstd::prelude::*;
use crate::spec::{fib, fib_result, lemma_fib_fits, lemma_fib_high_bit, lemma_fib_monotonic};

verus! {

/// Advances two terms per step, with wrapping additions guarded by the
/// high bit: once a term has its high bit set, the next one cannot fit.
pub fn fib_registered(n: usize) -> (r: Option<u32>)
    ensures
        r == fib_result(n as nat),
{
    let mut x: u32 = 0;
    let mut y: u32 = 1;
    let hi: u32 = !0u32 ^ (!0u32 >> 1u32);
    assert(hi == 0x8000_0000) by (bit_vector)
        requires
            hi == !0u32 ^ (!0u32 >> 1u32),
    ;
    let mut m: usize = n & !1usize;
    assert(m == n - n % 2 && m % 2 == 0) by (bit_vector)
        requires
            m == n & !1usize,
    ;
    // `top` is `n` rounded down to even; `x` holds F(top - m), `y` the next term.
    let ghost top: nat = (n - n % 2) as nat;
    while m > 0
        invariant_except_break
            m % 2 == 0,
            m <= top,
            x == fib((top - m) as nat),
            y == fib((top - m + 1) as nat),
        invariant
            hi == 0x8000_0000,
            top == n - n % 2,
        ensures
            m == 0 ==> x == fib(top) && y == fib(top + 1),
            m > 0 ==> fib(n as nat) > u32::MAX,
        decreases m,
    {
        let ghost e: nat = (top - m) as nat;
        if y & hi == 0 {
            assert(y & hi == 0 ==> y < 0x8000_0000) by (bit_vector)
                requires
                    hi == 0x8000_0000,
            ;
            proof {
                lemma_fib_monotonic(e, e + 1);
            }
            x = x.wrapping_add(y);
            assert(x == fib(e + 2));
        } else {
            proof {
                assert(y & hi != 0 ==> y >= 0x8000_0000) by (bit_vector)
                    requires
                        hi == 0x8000_0000,
                ;
                lemma_fib_high_bit(e + 1);
                lemma_fib_monotonic(e + 2, n as nat);
                lemma_fib_fits(n as nat);
            }
            break;
        }
        if x & hi == 0 {
            assert(x & hi == 0 ==> x < 0x8000_0000) by (bit_vector)
                requires
                    hi == 0x8000_0000,
            ;
            y = y.wrapping_add(x);
            assert(y == fib(e + 3));
        } else {
            proof {
                assert(x & hi != 0 ==> x >= 0x8000_0000) by (bit_vector)
                    requires
                        hi == 0x8000_0000,
                ;
                lemma_fib_high_bit(e + 2);
                lemma_fib_monotonic(e + 2, n as nat);
                lemma_fib_fits(n as nat);
            }
            break;
        }
        m -= 2;
    }
    assert(n & 1usize == n % 2) by (bit_vector);
    if m > 0 {
        None
    } else if n & 1 == 0 {
        Some(x)
    } else if x & hi == 0 {
        Some(y)
    } else {
        proof {
            assert(x & hi != 0 ==> x >= 0x8000_0000) by (bit_vector)
                requires
                    hi == 0x8000_0000,
            ;
            lemma_fib_high_bit(top);
            lemma_fib_fits(n as nat);
        }
        None
    }
}

} // verus!
