use vstd::prelude::*;

verus! {

/// The arithmetic that the network and the optimizer need from their element
/// type.
///
/// Each operation has a specification counterpart (`spec_plus` for `plus`,
/// and so on) and returns exactly what that counterpart gives, so that every
/// operation is a function of its arguments alone. The library's contracts
/// state its results through these counterparts: which values are combined,
/// with which operation and in which order.
pub trait Scalar: Sized + Copy {
    /// The additive identity, as a specification.
    spec fn spec_zero() -> Self;

    /// The value of a count, as a specification.
    spec fn spec_from_count(n: usize) -> Self;

    /// `self + o`, as a specification.
    spec fn spec_plus(self, o: Self) -> Self;

    /// `self - o`, as a specification.
    spec fn spec_minus(self, o: Self) -> Self;

    /// `self * o`, as a specification.
    spec fn spec_times(self, o: Self) -> Self;

    /// `self / o`, as a specification.
    spec fn spec_divided_by(self, o: Self) -> Self;

    /// The square root, as a specification.
    spec fn spec_square_root(self) -> Self;

    /// `1 / (1 + e^-self)`, as a specification.
    spec fn spec_logistic(self) -> Self;

    /// Whether `self > 0`, as a specification.
    spec fn spec_is_positive(self) -> bool;

    /// Whether `self < 0`, as a specification.
    spec fn spec_is_negative(self) -> bool;

    /// `floor(count * self)` as a count, as a specification.
    spec fn spec_fraction_of(self, count: usize) -> usize;

    /// The rank key of `self`, as a specification.
    spec fn spec_rank_key(self) -> i64;

    /// The additive identity.
    fn zero() -> (r: Self)
        ensures
            r == Self::spec_zero(),
    ;

    /// The value of a count.
    fn from_count(n: usize) -> (r: Self)
        ensures
            r == Self::spec_from_count(n),
    ;

    /// `self + o`.
    fn plus(self, o: Self) -> (r: Self)
        ensures
            r == self.spec_plus(o),
    ;

    /// `self - o`.
    fn minus(self, o: Self) -> (r: Self)
        ensures
            r == self.spec_minus(o),
    ;

    /// `self * o`.
    fn times(self, o: Self) -> (r: Self)
        ensures
            r == self.spec_times(o),
    ;

    /// `self / o`.
    fn divided_by(self, o: Self) -> (r: Self)
        ensures
            r == self.spec_divided_by(o),
    ;

    /// The square root.
    fn square_root(self) -> (r: Self)
        ensures
            r == self.spec_square_root(),
    ;

    /// The logistic function `1 / (1 + e^-self)`.
    fn logistic(self) -> (r: Self)
        ensures
            r == self.spec_logistic(),
    ;

    /// Whether `self > 0`.
    fn is_positive(self) -> (r: bool)
        ensures
            r == self.spec_is_positive(),
    ;

    /// Whether `self < 0`.
    fn is_negative(self) -> (r: bool)
        ensures
            r == self.spec_is_negative(),
    ;

    /// `floor(count * self)` as a count, saturating at the bounds of `usize`.
    fn fraction_of(self, count: usize) -> (r: usize)
        ensures
            r == self.spec_fraction_of(count),
    ;

    /// An integer whose order agrees with the order of the values: a larger
    /// value has a larger key.
    fn rank_key(self) -> (r: i64)
        ensures
            r == self.spec_rank_key(),
    ;
}

} // verus!
