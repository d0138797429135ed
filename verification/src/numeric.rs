//! The capability interface for matrix and complex elements: a copyable value
//! with an additive identity and total addition, subtraction and
//! multiplication.
use vstd::prelude::*;

verus! {

/// A numeric element type for the matrix engine and the complex numbers.
///
/// Each operation is total: the integer implementations wrap on overflow, as
/// their `wrapping_*` operations do. The `*_spec` functions are the
/// mathematical meaning that contracts are written over; the executable
/// operations are proved to agree with them, and `lemma_add_zero` obliges
/// every implementation to make `zero` an additive identity.
pub trait Numeric: Copy + Sized {
    /// The additive identity, as a specification-level value.
    spec fn zero_spec() -> Self;

    /// What `plus` returns.
    spec fn add_spec(self, other: Self) -> Self;

    /// What `minus` returns.
    spec fn sub_spec(self, other: Self) -> Self;

    /// What `times` returns.
    spec fn mul_spec(self, other: Self) -> Self;

    /// The additive identity.
    fn zero() -> (r: Self)
        ensures
            r == Self::zero_spec(),
    ;

    /// Addition.
    fn plus(self, other: Self) -> (r: Self)
        ensures
            r == self.add_spec(other),
    ;

    /// Subtraction.
    fn minus(self, other: Self) -> (r: Self)
        ensures
            r == self.sub_spec(other),
    ;

    /// Multiplication.
    fn times(self, other: Self) -> (r: Self)
        ensures
            r == self.mul_spec(other),
    ;

    /// Every implementation must make `zero_spec` a two-sided additive
    /// identity.
    proof fn lemma_add_zero(x: Self)
        ensures
            x.add_spec(Self::zero_spec()) == x,
            Self::zero_spec().add_spec(x) == x,
    ;
}

impl Numeric for i64 {
    open spec fn zero_spec() -> i64 {
        0i64
    }

    open spec fn add_spec(self, other: i64) -> i64 {
        vstd::wrapping::i64_specs::wrapping_add(self, other)
    }

    open spec fn sub_spec(self, other: i64) -> i64 {
        vstd::wrapping::i64_specs::wrapping_sub(self, other)
    }

    open spec fn mul_spec(self, other: i64) -> i64 {
        vstd::wrapping::i64_specs::wrapping_mul(self, other)
    }

    fn zero() -> (r: i64) {
        0i64
    }

    fn plus(self, other: i64) -> (r: i64) {
        self.wrapping_add(other)
    }

    fn minus(self, other: i64) -> (r: i64) {
        self.wrapping_sub(other)
    }

    fn times(self, other: i64) -> (r: i64) {
        self.wrapping_mul(other)
    }

    proof fn lemma_add_zero(x: i64) {
    }
}

impl Numeric for i32 {
    open spec fn zero_spec() -> i32 {
        0i32
    }

    open spec fn add_spec(self, other: i32) -> i32 {
        vstd::wrapping::i32_specs::wrapping_add(self, other)
    }

    open spec fn sub_spec(self, other: i32) -> i32 {
        vstd::wrapping::i32_specs::wrapping_sub(self, other)
    }

    open spec fn mul_spec(self, other: i32) -> i32 {
        vstd::wrapping::i32_specs::wrapping_mul(self, other)
    }

    fn zero() -> (r: i32) {
        0i32
    }

    fn plus(self, other: i32) -> (r: i32) {
        self.wrapping_add(other)
    }

    fn minus(self, other: i32) -> (r: i32) {
        self.wrapping_sub(other)
    }

    fn times(self, other: i32) -> (r: i32) {
        self.wrapping_mul(other)
    }

    proof fn lemma_add_zero(x: i32) {
    }
}

impl Numeric for u64 {
    open spec fn zero_spec() -> u64 {
        0u64
    }

    open spec fn add_spec(self, other: u64) -> u64 {
        vstd::wrapping::u64_specs::wrapping_add(self, other)
    }

    open spec fn sub_spec(self, other: u64) -> u64 {
        vstd::wrapping::u64_specs::wrapping_sub(self, other)
    }

    open spec fn mul_spec(self, other: u64) -> u64 {
        vstd::wrapping::u64_specs::wrapping_mul(self, other)
    }

    fn zero() -> (r: u64) {
        0u64
    }

    fn plus(self, other: u64) -> (r: u64) {
        self.wrapping_add(other)
    }

    fn minus(self, other: u64) -> (r: u64) {
        self.wrapping_sub(other)
    }

    fn times(self, other: u64) -> (r: u64) {
        self.wrapping_mul(other)
    }

    proof fn lemma_add_zero(x: u64) {
    }
}

} // verus!
