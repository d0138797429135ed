use matrixkit::complex::Complex;

#[test]
fn new_stores_both_parts() {
    let z = Complex::new(3i64, -4i64);
    assert_eq!(z.real, 3);
    assert_eq!(z.img, -4);
}

#[test]
fn plus_is_componentwise() {
    let a = Complex::new(1i64, 2i64);
    let b = Complex::new(10i64, 20i64);
    let c = a.plus(b);
    assert_eq!(c.real, 11);
    assert_eq!(c.img, 22);
}

#[test]
fn minus_is_componentwise() {
    let a = Complex::new(5i64, 7i64);
    let b = Complex::new(1i64, 9i64);
    let c = a.minus(b);
    assert_eq!(c.real, 4);
    assert_eq!(c.img, -2);
}

#[test]
fn times_follows_the_complex_product_formula() {
    let a = Complex::new(1i64, 2i64);
    let b = Complex::new(3i64, 4i64);
    let c = a.times(b);
    assert_eq!(c.real, -5);
    assert_eq!(c.img, 10);
}

#[test]
fn times_by_i_rotates() {
    let a = Complex::new(7i64, 3i64);
    let i = Complex::new(0i64, 1i64);
    let c = a.times(i);
    assert_eq!(c.real, -3);
    assert_eq!(c.img, 7);
}

#[test]
fn scale_applies_to_both_parts() {
    let a = Complex::new(2i64, -3i64);
    let c = a.scale(5);
    assert_eq!(c.real, 10);
    assert_eq!(c.img, -15);
}
