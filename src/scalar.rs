use vstd::prelude::*;

verus! {

/// The number type the engine computes with.
///
/// The engine itself only moves numbers around: every arithmetic step is one
/// call of a method here. Each method is tied to a spec function of the same
/// name with a `spec_` prefix; the contracts of the engine state its results
/// over those. The only thing an implementation promises is that each
/// operation is a function of its operands (the same operands give the same
/// result), which holds of IEEE double arithmetic, the type a program
/// instantiates the engine with.
pub trait Scalar: Copy + Sized {
    spec fn spec_zero() -> Self;

    spec fn spec_one() -> Self;

    spec fn spec_plus(self, o: Self) -> Self;

    spec fn spec_minus(self, o: Self) -> Self;

    spec fn spec_times(self, o: Self) -> Self;

    spec fn spec_div(self, o: Self) -> Self;

    spec fn spec_neg(self) -> Self;

    spec fn spec_exp(self) -> Self;

    spec fn spec_ln(self) -> Self;

    spec fn spec_exceeds(self, o: Self) -> bool;

    spec fn spec_from_count(n: usize) -> Self;

    /// The additive identity.
    fn zero() -> (r: Self)
        ensures
            r == Self::spec_zero();

    /// The multiplicative identity.
    fn one() -> (r: Self)
        ensures
            r == Self::spec_one();

    /// `self + o`.
    fn plus(self, o: Self) -> (r: Self)
        ensures
            r == self.spec_plus(o);

    /// `self - o`.
    fn minus(self, o: Self) -> (r: Self)
        ensures
            r == self.spec_minus(o);

    /// `self * o`.
    fn times(self, o: Self) -> (r: Self)
        ensures
            r == self.spec_times(o);

    /// `self / o`.
    fn divided_by(self, o: Self) -> (r: Self)
        ensures
            r == self.spec_div(o);

    /// `-self`.
    fn negated(self) -> (r: Self)
        ensures
            r == self.spec_neg();

    /// `e` raised to `self`.
    fn exp(self) -> (r: Self)
        ensures
            r == self.spec_exp();

    /// The natural logarithm of `self`.
    fn ln(self) -> (r: Self)
        ensures
            r == self.spec_ln();

    /// Whether `self > o`.
    fn exceeds(self, o: Self) -> (r: bool)
        ensures
            r == self.spec_exceeds(o);

    /// The count `n` as a number.
    fn from_count(n: usize) -> (r: Self)
        ensures
            r == Self::spec_from_count(n);
}

} // verus!
