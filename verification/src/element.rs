//! The arithmetic of a tensor element.

use vstd::prelude::*;

verus! {

/// A tensor element and the four operations the kernels perform on it.
///
/// Each operation has a model, a `spec` function of its operands, and the
/// executable method returns exactly the model's value: an operation is a
/// function of its operands and of nothing else. An implementation overrides
/// the four models with what its operations compute; the defaults leave them
/// unconstrained. Nothing is asked of the algebra: addition need not be
/// associative, and `fused` need not equal `plus` after `times`, as is the
/// case for IEEE-754 numbers, where `fused` rounds once.
///
/// Elements are read and written by several threads at once, hence `Send`
/// and `Sync`.
pub trait Element: Copy + Send + Sync {
    /// Model of [`Element::zero`].
    open spec fn spec_zero() -> Self {
        arbitrary()
    }

    /// Model of [`Element::plus`].
    open spec fn spec_plus(self, rhs: Self) -> Self {
        arbitrary()
    }

    /// Model of [`Element::times`].
    open spec fn spec_times(self, rhs: Self) -> Self {
        arbitrary()
    }

    /// Model of [`Element::fused`].
    open spec fn spec_fused(self, x: Self, y: Self) -> Self {
        arbitrary()
    }

    /// The value every accumulator starts from.
    fn zero() -> (r: Self)
        ensures
            r == Self::spec_zero(),
    ;

    /// `self + rhs`.
    fn plus(self, rhs: Self) -> (r: Self)
        ensures
            r == self.spec_plus(rhs),
    ;

    /// `self * rhs`.
    fn times(self, rhs: Self) -> (r: Self)
        ensures
            r == self.spec_times(rhs),
    ;

    /// `self + x * y` as one operation (a fused multiply-add).
    fn fused(self, x: Self, y: Self) -> (r: Self)
        ensures
            r == self.spec_fused(x, y),
    ;
}

/// Two's-complement 64-bit integers with wrapping arithmetic: an exact
/// element type, in which sums may be regrouped freely.
impl Element for i64 {
    open spec fn spec_zero() -> i64 {
        0i64
    }

    open spec fn spec_plus(self, rhs: i64) -> i64 {
        vstd::wrapping::i64_specs::wrapping_add(self, rhs)
    }

    open spec fn spec_times(self, rhs: i64) -> i64 {
        vstd::wrapping::i64_specs::wrapping_mul(self, rhs)
    }

    open spec fn spec_fused(self, x: i64, y: i64) -> i64 {
        vstd::wrapping::i64_specs::wrapping_add(
            self,
            vstd::wrapping::i64_specs::wrapping_mul(x, y),
        )
    }

    fn zero() -> (r: i64) {
        0i64
    }

    fn plus(self, rhs: i64) -> (r: i64) {
        self.wrapping_add(rhs)
    }

    fn times(self, rhs: i64) -> (r: i64) {
        self.wrapping_mul(rhs)
    }

    fn fused(self, x: i64, y: i64) -> (r: i64) {
        self.wrapping_add(x.wrapping_mul(y))
    }
}

} // verus!
