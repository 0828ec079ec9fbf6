use vstd::prelude::*;
use crate::spec::{fib, fib_result, lemma_fib_fits};

verus! {

/// From index `i` on, `t` holds consecutive Fibonacci numbers, starting
/// with `a` and `b`.
spec fn table_from(t: Seq<u32>, i: nat, a: nat, b: nat) -> bool
    decreases t.len() - i,
{
    i >= t.len() || (t[i as int] == a && table_from(t, i + 1, b, a + b))
}

proof fn lemma_table_from(t: Seq<u32>, i: nat, j: nat)
    requires
        table_from(t, i, fib(i), fib(i + 1)),
        i <= j < t.len(),
    ensures
        t[j as int] == fib(j),
    decreases j - i,
{
    if i < j {
        assert(fib(i + 2) == fib(i) + fib(i + 1));
        lemma_table_from(t, i + 1, j);
    }
}

/// Looks `n` up in a table of the 48 Fibonacci numbers that fit in a `u32`.
pub fn fib_lookup(n: usize) -> (r: Option<u32>)
    ensures
        r == fib_result(n as nat),
{
    let table: [u32; 48] = [
        0, 1, 1, 2, 3, 5, 8, 13, 21, 34, 55, 89, 144, 233, 377, 610, 987, 1597, 2584, 4181, 6765,
        10946, 17711, 28657, 46368, 75025, 121393, 196418, 317811, 514229, 832040, 1346269,
        2178309, 3524578, 5702887, 9227465, 14930352, 24157817, 39088169, 63245986, 102334155,
        165580141, 267914296, 433494437, 701408733, 1134903170, 1836311903, 2971215073,
    ];
    proof {
        lemma_fib_fits(n as nat);
        let t = table@;
        assert(table_from(t, 40, 102334155, 165580141)) by {
            reveal_with_fuel(table_from, 9);
        }
        assert(table_from(t, 32, 2178309, 3524578)) by {
            reveal_with_fuel(table_from, 9);
        }
        assert(table_from(t, 24, 46368, 75025)) by {
            reveal_with_fuel(table_from, 9);
        }
        assert(table_from(t, 16, 987, 1597)) by {
            reveal_with_fuel(table_from, 9);
        }
        assert(table_from(t, 8, 21, 34)) by {
            reveal_with_fuel(table_from, 9);
        }
        assert(table_from(t, 0, 0, 1)) by {
            reveal_with_fuel(table_from, 9);
        }
        assert(fib(0) == 0 && fib(1) == 1);
    }
    if n < 48 {
        proof {
            lemma_table_from(table@, 0, n as nat);
        }
        Some(table[n])
    } else {
        None
    }
}

} // verus!
