use vstd::prelude::*;

verus! {

/// The number type that ranks are computed in: reals as the machine has them,
/// supplied by the caller (IEEE-754 doubles, most often).
///
/// Each operation is described by a spec function of its arguments alone, and
/// the contracts of the solver are stated over those: an implementation is
/// expected to be a function of its arguments, with no other state.
pub trait Scalar: Copy + Sized {
    /// The additive identity.
    spec fn spec_zero() -> Self;

    /// The multiplicative identity.
    spec fn spec_one() -> Self;

    /// The number `n`.
    spec fn spec_of_count(n: usize) -> Self;

    /// `self + o`.
    spec fn spec_plus(self, o: Self) -> Self;

    /// `self - o`.
    spec fn spec_minus(self, o: Self) -> Self;

    /// `self * o`.
    spec fn spec_times(self, o: Self) -> Self;

    /// `self / o`.
    spec fn spec_over(self, o: Self) -> Self;

    /// The absolute value of `self`.
    spec fn spec_magnitude(self) -> Self;

    /// Whether `self` equals zero.
    spec fn spec_is_zero(self) -> bool;

    /// Whether `self < o`.
    spec fn spec_below(self, o: Self) -> bool;

    fn zero() -> (r: Self)
        ensures
            r == Self::spec_zero(),
    ;

    fn one() -> (r: Self)
        ensures
            r == Self::spec_one(),
    ;

    fn of_count(n: usize) -> (r: Self)
        ensures
            r == Self::spec_of_count(n),
    ;

    fn plus(self, o: Self) -> (r: Self)
        ensures
            r == self.spec_plus(o),
    ;

    fn minus(self, o: Self) -> (r: Self)
        ensures
            r == self.spec_minus(o),
    ;

    fn times(self, o: Self) -> (r: Self)
        ensures
            r == self.spec_times(o),
    ;

    fn over(self, o: Self) -> (r: Self)
        ensures
            r == self.spec_over(o),
    ;

    fn magnitude(self) -> (r: Self)
        ensures
            r == self.spec_magnitude(),
    ;

    fn is_zero(self) -> (r: bool)
        ensures
            r == self.spec_is_zero(),
    ;

    fn below(self, o: Self) -> (r: bool)
        ensures
            r == self.spec_below(o),
    ;
}

} // verus!
