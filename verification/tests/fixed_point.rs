use particle_life::fixed::{isqrt, ONE};

#[test]
fn one_is_a_million() {
    assert_eq!(ONE, 1_000_000);
}

#[test]
fn isqrt_of_small_numbers() {
    assert_eq!(isqrt(0), 0);
    assert_eq!(isqrt(1), 1);
    assert_eq!(isqrt(2), 1);
    assert_eq!(isqrt(3), 1);
    assert_eq!(isqrt(4), 2);
    assert_eq!(isqrt(8), 2);
    assert_eq!(isqrt(9), 3);
    assert_eq!(isqrt(99), 9);
    assert_eq!(isqrt(100), 10);
}

#[test]
fn isqrt_of_perfect_squares_and_their_neighbours() {
    let roots: Vec<u128> = vec![5_000_000, 10_000_000, 4_294_967_296, 18_446_744_073_709_551_615];
    for r in roots {
        let square: u128 = r * r;
        assert_eq!(isqrt(square) as u128, r);
        assert_eq!(isqrt(square - 1) as u128, r - 1);
        if r < 18_446_744_073_709_551_615 {
            assert_eq!(isqrt(square + 1) as u128, r);
            assert_eq!(isqrt(square + 2 * r) as u128, r);
        }
    }
}

#[test]
fn isqrt_of_the_largest_number() {
    assert_eq!(isqrt(u128::MAX), u64::MAX);
}

#[test]
fn isqrt_rounds_down() {
    // sqrt(2) = 1.41421356...
    assert_eq!(isqrt(2_000_000_000_000), 1_414_213);
}
