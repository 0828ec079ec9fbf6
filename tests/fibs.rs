use fib_tour::{
    fib_array, fib_fold, fib_lazy, fib_lookup, fib_registered, fib_vec, fib_vec_fancy, FibTerms,
};

type FibFn = fn(usize) -> Option<u32>;

const COMPONENTS: [(&str, FibFn); 7] = [
    ("vec", fib_vec),
    ("fancy", fib_vec_fancy),
    ("array", fib_array),
    ("registered", fib_registered),
    ("fold", fib_fold),
    ("lazy", fib_lazy),
    ("lookup", fib_lookup),
];

fn test_fib(name: &str, f: FibFn) {
    let fibs = [0, 1, 1, 2, 3, 5, 8];
    for (i, fib) in fibs.into_iter().enumerate() {
        let ff = f(i);
        assert_eq!(Some(fib), ff, "{}: {}", name, i);
    }
    assert_eq!(Some(701_408_733), f(44));
    assert_eq!(Some(1_134_903_170), f(45));
    assert_eq!(Some(1_836_311_903), f(46));
    assert_eq!(Some(2_971_215_073), f(47));
    for i in 48..=51 {
        let ff = f(i);
        assert!(ff.is_none(), "{}: {} {:?}", name, i, ff);
    }
    assert!(f(100).is_none());
}

#[test]
fn test_fibs() {
    test_fib("vec", fib_vec);
    test_fib("fancy", fib_vec_fancy);
    test_fib("array", fib_array);
    test_fib("registered", fib_registered);
    test_fib("fold", fib_fold);
    test_fib("lazy", fib_lazy);
    test_fib("lookup", fib_lookup);
}

/// F(0) to F(47), each from the two before it, with exact arithmetic.
fn exact_fibs() -> Vec<u64> {
    let mut v: Vec<u64> = vec![0, 1];
    while v.len() < 49 {
        let k = v.len();
        v.push(v[k - 1] + v[k - 2]);
    }
    v
}

#[test]
fn components_agree_up_to_100() {
    for n in 0..=100usize {
        let expected = fib_lookup(n);
        for (name, f) in COMPONENTS {
            assert_eq!(f(n), expected, "{} at {}", name, n);
        }
    }
}

#[test]
fn present_values_are_exact() {
    let exact = exact_fibs();
    assert_eq!(exact[48], 4_807_526_976);
    for (name, f) in COMPONENTS {
        for n in 0..=100usize {
            match f(n) {
                Some(v) => assert_eq!(v as u64, exact[n], "{} at {}", name, n),
                None => assert!(n >= 48, "{} absent at {}", name, n),
            }
        }
    }
}

#[test]
fn every_fitting_index_is_present() {
    let exact = exact_fibs();
    for (name, f) in COMPONENTS {
        for n in 0..48usize {
            assert_eq!(f(n), Some(exact[n] as u32), "{} at {}", name, n);
        }
    }
}

#[test]
fn calling_twice_gives_the_same_result() {
    for (name, f) in COMPONENTS {
        for n in [0usize, 1, 2, 30, 47, 48, 49, 100] {
            assert_eq!(f(n), f(n), "{} at {}", name, n);
        }
    }
    let first: Vec<Option<u32>> = (0..60).map(fib_lazy).collect();
    let second: Vec<Option<u32>> = (0..60).map(fib_lazy).collect();
    assert_eq!(first, second);
}

#[test]
fn largest_index_is_absent() {
    for (name, f) in COMPONENTS {
        assert_eq!(f(usize::MAX), None, "{}", name);
        assert_eq!(f(usize::MAX - 1), None, "{}", name);
        assert_eq!(f(1000), None, "{}", name);
    }
}

#[test]
fn small_indices() {
    for (name, f) in COMPONENTS {
        assert_eq!(f(7), Some(13), "{}", name);
        assert_eq!(f(10), Some(55), "{}", name);
        assert_eq!(f(20), Some(6765), "{}", name);
        assert_eq!(f(30), Some(832_040), "{}", name);
    }
}

#[test]
fn boundary_between_odd_and_even() {
    // The two-terms-per-step loop ends differently for odd and even indices.
    for (name, f) in COMPONENTS {
        assert_eq!(f(46), Some(1_836_311_903), "{}", name);
        assert_eq!(f(47), Some(2_971_215_073), "{}", name);
        assert_eq!(f(48), None, "{}", name);
        assert_eq!(f(49), None, "{}", name);
    }
}

#[test]
fn terms_are_drawn_in_order_then_exhausted() {
    let exact = exact_fibs();
    let mut terms = FibTerms::new();
    for k in 0..48 {
        assert_eq!(terms.next_term(), Some(exact[k] as u32));
    }
    for _ in 0..5 {
        assert_eq!(terms.next_term(), None);
    }
}

#[test]
fn fresh_sequences_are_independent() {
    let mut a = FibTerms::new();
    for _ in 0..10 {
        a.next_term();
    }
    let mut b = FibTerms::new();
    assert_eq!(b.next_term(), Some(0));
    assert_eq!(a.next_term(), Some(55));
    assert_eq!(b.next_term(), Some(1));
}
