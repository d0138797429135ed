//! Complex numbers over a generic numeric field. Pure, single-threaded
//! arithmetic, independent of the matrix engine.
use crate::numeric::Numeric;
use vstd::prelude::*;

verus! {

/// A complex number with real part `real` and imaginary part `img`.
#[derive(Clone, Copy)]
pub struct Complex<T> {
    pub real: T,
    pub img: T,
}

impl<T: Numeric> Complex<T> {
    pub fn new(real_part: T, imaginary_part: T) -> (r: Complex<T>)
        ensures
            r.real == real_part,
            r.img == imaginary_part,
    {
        Complex { real: real_part, img: imaginary_part }
    }

    /// Componentwise addition.
    pub fn plus(self, other: Complex<T>) -> (r: Complex<T>)
        ensures
            r.real == self.real.add_spec(other.real),
            r.img == self.img.add_spec(other.img),
    {
        Complex { real: self.real.plus(other.real), img: self.img.plus(other.img) }
    }

    /// Componentwise subtraction.
    pub fn minus(self, other: Complex<T>) -> (r: Complex<T>)
        ensures
            r.real == self.real.sub_spec(other.real),
            r.img == self.img.sub_spec(other.img),
    {
        Complex { real: self.real.minus(other.real), img: self.img.minus(other.img) }
    }

    /// Multiplication by a non-complex scalar, applied to both parts. The
    /// scalar may stand on either side of the product; both orders are this
    /// one operation.
    pub fn scale(self, other: T) -> (r: Complex<T>)
        ensures
            r.real == self.real.mul_spec(other),
            r.img == self.img.mul_spec(other),
    {
        Complex { real: self.real.times(other), img: self.img.times(other) }
    }

    /// Multiplication of two complex numbers:
    /// `(a + bi)(c + di) = (ac - bd) + (ad + cb)i`.
    pub fn times(self, other: Complex<T>) -> (r: Complex<T>)
        ensures
            r.real == self.real.mul_spec(other.real).sub_spec(self.img.mul_spec(other.img)),
            r.img == self.real.mul_spec(other.img).add_spec(other.real.mul_spec(self.img)),
    {
        Complex {
            real: self.real.times(other.real).minus(self.img.times(other.img)),
            img: self.real.times(other.img).plus(other.real.times(self.img)),
        }
    }
}

} // verus!
