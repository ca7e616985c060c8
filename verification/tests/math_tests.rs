use rubiks_cube::math::{
    count_inversions, fac_list, fast_pow, get_kth_perm, get_nck, map_nck, map_permutation, n_choose_k,
    pow_list, FAC,
};

/// The rank of the i-th permutation is i.
#[test]
fn permutation_mapping() {
    for i in 0..9 {
        for j in 0..FAC[i] {
            let v = get_kth_perm(i, j);
            let idx = map_permutation(&v);

            if idx != j {
                panic!("Permutation {:?} (generated from {}) is mapped to {}!", v, j, idx);
            }
        }
    }
}

/// The rank of the k-th way to choose j out of i is k.
#[test]
fn nck_mapping() {
    for i in 0..6 {
        for j in 0..=i {
            let ways = n_choose_k(i, j);
            for k in 0..ways {
                let nck = get_nck(i, j, k);
                let idx = map_nck(&nck);

                if k != idx {
                    panic!(
                        "{} choose {}, {}-th version ouputs {:?}, but is mapped to {}",
                        i, j, k, nck, idx
                    );
                }
            }
        }
    }
}

#[test]
fn permutation_rank_of_first_and_last() {
    assert_eq!(get_kth_perm(4, 0), vec![0, 1, 2, 3]);
    assert_eq!(get_kth_perm(4, 23), vec![3, 2, 1, 0]);
    assert_eq!(map_permutation(&vec![0, 1, 2, 3]), 0);
    assert_eq!(map_permutation(&vec![3, 2, 1, 0]), 23);
}

#[test]
fn permutation_rank_is_lexicographic() {
    assert_eq!(map_permutation(&vec![0, 1, 2]), 0);
    assert_eq!(map_permutation(&vec![0, 2, 1]), 1);
    assert_eq!(map_permutation(&vec![1, 0, 2]), 2);
    assert_eq!(map_permutation(&vec![1, 2, 0]), 3);
    assert_eq!(map_permutation(&vec![2, 0, 1]), 4);
    assert_eq!(map_permutation(&vec![2, 1, 0]), 5);
    assert_eq!(map_permutation(&vec![7, 6, 5, 4, 3, 2, 1, 0]), 40319);
}

#[test]
fn permutation_unrank_values() {
    assert_eq!(get_kth_perm(5, 57), vec![2, 1, 3, 4, 0]);
    assert_eq!(
        get_kth_perm(12, 479001599),
        vec![11, 10, 9, 8, 7, 6, 5, 4, 3, 2, 1, 0]
    );
    assert_eq!(
        get_kth_perm(12, 123456789),
        vec![3, 1, 0, 4, 11, 6, 9, 7, 10, 5, 8, 2]
    );
}

#[test]
fn permutation_of_nothing() {
    assert_eq!(get_kth_perm(0, 0), Vec::<usize>::new());
    assert_eq!(map_permutation(&Vec::new()), 0);
    assert_eq!(get_kth_perm(1, 0), vec![0]);
    assert_eq!(map_permutation(&vec![0]), 0);
}

#[test]
fn permutation_unrank_undoes_rank() {
    let perms: [Vec<usize>; 3] = [
        vec![4, 0, 3, 1, 2],
        vec![0, 2, 1],
        vec![9, 3, 11, 0, 5, 1, 10, 7, 2, 8, 4, 6],
    ];
    for p in perms {
        let k = map_permutation(&p);
        assert_eq!(get_kth_perm(p.len(), k), p);
    }
}

#[test]
fn permutation_mapping_of_twelve() {
    for k in [0usize, 1, 39916800, 479001599, 250000000] {
        let v = get_kth_perm(12, k);
        assert_eq!(map_permutation(&v), k);
    }
}

#[test]
fn subset_rank_values() {
    assert_eq!(map_nck(&vec![true, false]), 1);
    assert_eq!(map_nck(&vec![false, true]), 0);
    assert_eq!(map_nck(&vec![true, true, false, false]), 5);
    assert_eq!(map_nck(&vec![false, false, true, true]), 0);
    assert_eq!(map_nck(&vec![true, false, true, false]), 4);
    assert_eq!(map_nck(&Vec::new()), 0);
    assert_eq!(map_nck(&vec![false, false, false]), 0);
}

#[test]
fn subset_unrank_values() {
    assert_eq!(get_nck(4, 2, 0), vec![false, false, true, true]);
    assert_eq!(get_nck(4, 2, 5), vec![true, true, false, false]);
    assert_eq!(get_nck(4, 2, 3), vec![false, true, true, false]);
    assert_eq!(get_nck(3, 0, 0), vec![false, false, false]);
    assert_eq!(get_nck(3, 3, 0), vec![true, true, true]);
    assert_eq!(get_nck(0, 0, 0), Vec::<bool>::new());
    let mut first = vec![false; 8];
    first.extend(vec![true; 4]);
    assert_eq!(get_nck(12, 4, 0), first);
    let mut last = vec![true; 4];
    last.extend(vec![false; 8]);
    assert_eq!(get_nck(12, 4, 494), last);
}

#[test]
fn subset_mapping_up_to_twelve() {
    for n in 0..=12 {
        for k in 0..=n {
            let ways = n_choose_k(n, k);
            for i in 0..ways {
                let v = get_nck(n, k, i);
                assert_eq!(v.len(), n);
                assert_eq!(v.iter().filter(|b| **b).count(), k);
                assert_eq!(map_nck(&v), i);
            }
        }
    }
}

#[test]
fn subset_unrank_undoes_rank() {
    let v = vec![false, true, false, false, true, true, false, true, false];
    let k = v.iter().filter(|b| **b).count();
    assert_eq!(get_nck(v.len(), k, map_nck(&v)), v);
}

#[test]
fn binomial_values() {
    assert_eq!(n_choose_k(0, 0), 1);
    assert_eq!(n_choose_k(5, 0), 1);
    assert_eq!(n_choose_k(5, 5), 1);
    assert_eq!(n_choose_k(5, 2), 10);
    assert_eq!(n_choose_k(12, 4), 495);
    assert_eq!(n_choose_k(12, 6), 924);
    assert_eq!(n_choose_k(11, 3), 165);
}

#[test]
fn factorial_table_values() {
    assert_eq!(FAC[0], 1);
    assert_eq!(FAC[8], 40320);
    assert_eq!(FAC[12], 479001600);
    for i in 1..13 {
        assert_eq!(FAC[i], FAC[i - 1] * i);
    }
}

#[test]
fn fast_pow_values() {
    assert_eq!(fast_pow(2, 0), 1);
    assert_eq!(fast_pow(2, 1), 2);
    assert_eq!(fast_pow(2, 10), 1024);
    assert_eq!(fast_pow(3, 7), 2187);
    assert_eq!(fast_pow(3, 5), 243);
    assert_eq!(fast_pow(0, 0), 1);
    assert_eq!(fast_pow(0, 5), 0);
    assert_eq!(fast_pow(1, 1000), 1);
    assert_eq!(fast_pow(10, 9), 1000000000);
    assert_eq!(fast_pow(65535, 2), 4294836225);
}

#[test]
fn pow_list_values() {
    let p: [usize; 8] = pow_list::<8>(3);
    assert_eq!(p, [1, 3, 9, 27, 81, 243, 729, 2187]);
    let q: [usize; 12] = pow_list::<12>(2);
    assert_eq!(q[11], 2048);
    let z: [usize; 3] = pow_list::<3>(0);
    assert_eq!(z, [1, 0, 0]);
}

#[test]
fn inversions_values() {
    assert_eq!(count_inversions(&vec![0, 1, 2, 3]), 0);
    assert_eq!(count_inversions(&vec![3, 1, 2, 0]), 5);
    assert_eq!(count_inversions(&vec![1, 0]), 1);
    assert_eq!(count_inversions(&Vec::new()), 0);
}

#[test]
fn factorial_list_values() {
    let f: [usize; 13] = fac_list::<13>();
    assert_eq!(f, FAC);
    let g: [usize; 5] = fac_list::<5>();
    assert_eq!(g, [1, 1, 2, 6, 24]);
    let none: [usize; 0] = fac_list::<0>();
    assert_eq!(none.len(), 0);
}
