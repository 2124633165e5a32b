use ecs_change::gcd::{gcd, gcd_by_table, n_over_gcd_by_table};

#[test]
fn gcd_tests() {
    assert_eq!(gcd(0, 0), 0);

    assert_eq!(gcd(1, 0), 1);
    assert_eq!(gcd(1, 1), 1);

    assert_eq!(gcd(2, 0), 2);
    assert_eq!(gcd(2, 1), 1);
    assert_eq!(gcd(2, 2), 2);

    assert_eq!(gcd(3, 0), 3);
    assert_eq!(gcd(3, 1), 1);
    assert_eq!(gcd(3, 2), 1);
    assert_eq!(gcd(3, 3), 3);

    assert_eq!(gcd(4, 0), 4);
    assert_eq!(gcd(4, 1), 1);
    assert_eq!(gcd(4, 2), 2);
    assert_eq!(gcd(4, 3), 1);
    assert_eq!(gcd(4, 4), 4);
}

#[test]
fn gcd_tests_symmetry() {
    for a in 0..1000 {
        for b in 0..1000 {
            assert_eq!(gcd(a, b), gcd(b, a));
        }
    }
}

fn check_gcd_by_table<const N: usize>() {
    let mut i = 0;
    while i <= N {
        assert!(gcd_by_table::<N>(i as u64) == gcd(N as u64, i as u64));
        i += 1;
    }
}

#[test]
fn gcd_by_table_tests() {
    check_gcd_by_table::<0>();
    check_gcd_by_table::<1>();
    check_gcd_by_table::<2>();
    check_gcd_by_table::<3>();
    check_gcd_by_table::<4>();
    check_gcd_by_table::<5>();
    check_gcd_by_table::<6>();
    check_gcd_by_table::<7>();
    check_gcd_by_table::<8>();
}

fn check_n_over_gcd_by_table<const N: usize>() {
    let mut i = 0;
    while i <= 2 * N {
        assert!(n_over_gcd_by_table::<N>(i as u64) == N as u64 / gcd(N as u64, i as u64));
        i += 1;
    }
}

#[test]
fn n_over_gcd_by_table_tests() {
    check_n_over_gcd_by_table::<1>();
    check_n_over_gcd_by_table::<2>();
    check_n_over_gcd_by_table::<3>();
    check_n_over_gcd_by_table::<4>();
    check_n_over_gcd_by_table::<5>();
    check_n_over_gcd_by_table::<6>();
    check_n_over_gcd_by_table::<7>();
    check_n_over_gcd_by_table::<8>();
}

#[test]
fn gcd_large_values() {
    assert_eq!(gcd(48, 18), 6);
    assert_eq!(gcd(u64::MAX, u64::MAX), u64::MAX);
    assert_eq!(n_over_gcd_by_table::<0>(5), 0);
    assert_eq!(n_over_gcd_by_table::<12>(8), 3);
}
