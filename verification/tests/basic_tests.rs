use matrixkit::basic::integer_sqrt;

#[test]
fn integer_sqrt_of_zero_and_one() {
    assert_eq!(integer_sqrt(0), (0, true));
    assert_eq!(integer_sqrt(1), (1, true));
}

#[test]
fn integer_sqrt_of_small_numbers() {
    assert_eq!(integer_sqrt(2), (1, false));
    assert_eq!(integer_sqrt(3), (1, false));
    assert_eq!(integer_sqrt(4), (2, true));
    assert_eq!(integer_sqrt(8), (2, false));
    assert_eq!(integer_sqrt(9), (3, true));
}

#[test]
fn integer_sqrt_of_perfect_squares() {
    assert_eq!(integer_sqrt(16), (4, true));
    assert_eq!(integer_sqrt(25), (5, true));
    assert_eq!(integer_sqrt(144), (12, true));
    assert_eq!(integer_sqrt(1_000_000), (1000, true));
}

#[test]
fn integer_sqrt_of_non_squares() {
    assert_eq!(integer_sqrt(17), (4, false));
    assert_eq!(integer_sqrt(24), (4, false));
    assert_eq!(integer_sqrt(99), (9, false));
}

#[test]
fn integer_sqrt_of_large_numbers() {
    assert_eq!(integer_sqrt(1_000_000_000_000_000_000), (1_000_000_000, true));
    assert_eq!(integer_sqrt(u64::MAX), (4_294_967_295, false));
    let r = integer_sqrt(u64::MAX - 1);
    assert_eq!(r, (4_294_967_295, false));
}
