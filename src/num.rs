use vstd::prelude::*;

use crate::sealed::Sealed;

verus! {

/// Truncating integer division (rounds toward zero), as `/` does on the
/// primitive integer types.
pub open spec fn trunc_div(x: int, d: int) -> int
    recommends
        d > 0,
{
    if x >= 0 {
        x / d
    } else {
        -((-x) / d)
    }
}

/// A primitive integer type usable as sample or accumulator type.
pub trait NumKind: Copy + Sealed {
    /// The mathematical value of `self`.
    spec fn value(&self) -> int;

    /// The smallest value of the type.
    spec fn min_value() -> int;

    /// The largest value of the type.
    spec fn max_value() -> int;

    /// Every value lies between the bounds, and the range holds zero and one.
    proof fn lemma_bounds(x: Self)
        ensures
            Self::min_value() <= x.value() <= Self::max_value(),
            Self::min_value() <= 0 < Self::max_value(),
    ;

    /// The zero of the type.
    fn zero() -> (r: Self)
        ensures
            r.value() == 0,
    ;

    /// `self + o`, or `None` where the sum leaves the range of the type.
    fn add_checked(self, o: Self) -> (r: Option<Self>)
        ensures
            r is Some <==> Self::min_value() <= self.value() + o.value() <= Self::max_value(),
            r matches Some(s) ==> s.value() == self.value() + o.value(),
    ;

    /// `self - o`, or `None` where the difference leaves the range of the type.
    fn sub_checked(self, o: Self) -> (r: Option<Self>)
        ensures
            r is Some <==> Self::min_value() <= self.value() - o.value() <= Self::max_value(),
            r matches Some(s) ==> s.value() == self.value() - o.value(),
    ;

    /// `self / d` for a positive divisor, rounded toward zero.
    fn div_trunc(self, d: Self) -> (r: Self)
        requires
            d.value() > 0,
        ensures
            r.value() == trunc_div(self.value(), d.value()),
    ;
}

impl NumKind for i8 {
    open spec fn value(&self) -> int {
        *self as int
    }

    open spec fn min_value() -> int {
        i8::MIN as int
    }

    open spec fn max_value() -> int {
        i8::MAX as int
    }

    proof fn lemma_bounds(x: Self) {
    }

    fn zero() -> (r: Self) {
        0
    }

    fn add_checked(self, o: Self) -> (r: Option<Self>) {
        self.checked_add(o)
    }

    fn sub_checked(self, o: Self) -> (r: Option<Self>) {
        self.checked_sub(o)
    }

    fn div_trunc(self, d: Self) -> (r: Self) {
        self / d
    }
}

impl NumKind for i16 {
    open spec fn value(&self) -> int {
        *self as int
    }

    open spec fn min_value() -> int {
        i16::MIN as int
    }

    open spec fn max_value() -> int {
        i16::MAX as int
    }

    proof fn lemma_bounds(x: Self) {
    }

    fn zero() -> (r: Self) {
        0
    }

    fn add_checked(self, o: Self) -> (r: Option<Self>) {
        self.checked_add(o)
    }

    fn sub_checked(self, o: Self) -> (r: Option<Self>) {
        self.checked_sub(o)
    }

    fn div_trunc(self, d: Self) -> (r: Self) {
        self / d
    }
}

impl NumKind for i32 {
    open spec fn value(&self) -> int {
        *self as int
    }

    open spec fn min_value() -> int {
        i32::MIN as int
    }

    open spec fn max_value() -> int {
        i32::MAX as int
    }

    proof fn lemma_bounds(x: Self) {
    }

    fn zero() -> (r: Self) {
        0
    }

    fn add_checked(self, o: Self) -> (r: Option<Self>) {
        self.checked_add(o)
    }

    fn sub_checked(self, o: Self) -> (r: Option<Self>) {
        self.checked_sub(o)
    }

    fn div_trunc(self, d: Self) -> (r: Self) {
        self / d
    }
}

impl NumKind for i64 {
    open spec fn value(&self) -> int {
        *self as int
    }

    open spec fn min_value() -> int {
        i64::MIN as int
    }

    open spec fn max_value() -> int {
        i64::MAX as int
    }

    proof fn lemma_bounds(x: Self) {
    }

    fn zero() -> (r: Self) {
        0
    }

    fn add_checked(self, o: Self) -> (r: Option<Self>) {
        self.checked_add(o)
    }

    fn sub_checked(self, o: Self) -> (r: Option<Self>) {
        self.checked_sub(o)
    }

    fn div_trunc(self, d: Self) -> (r: Self) {
        self / d
    }
}

impl NumKind for i128 {
    open spec fn value(&self) -> int {
        *self as int
    }

    open spec fn min_value() -> int {
        i128::MIN as int
    }

    open spec fn max_value() -> int {
        i128::MAX as int
    }

    proof fn lemma_bounds(x: Self) {
    }

    fn zero() -> (r: Self) {
        0
    }

    fn add_checked(self, o: Self) -> (r: Option<Self>) {
        self.checked_add(o)
    }

    fn sub_checked(self, o: Self) -> (r: Option<Self>) {
        self.checked_sub(o)
    }

    fn div_trunc(self, d: Self) -> (r: Self) {
        self / d
    }
}

impl NumKind for isize {
    open spec fn value(&self) -> int {
        *self as int
    }

    open spec fn min_value() -> int {
        isize::MIN as int
    }

    open spec fn max_value() -> int {
        isize::MAX as int
    }

    proof fn lemma_bounds(x: Self) {
    }

    fn zero() -> (r: Self) {
        0
    }

    fn add_checked(self, o: Self) -> (r: Option<Self>) {
        self.checked_add(o)
    }

    fn sub_checked(self, o: Self) -> (r: Option<Self>) {
        self.checked_sub(o)
    }

    fn div_trunc(self, d: Self) -> (r: Self) {
        self / d
    }
}

impl NumKind for u8 {
    open spec fn value(&self) -> int {
        *self as int
    }

    open spec fn min_value() -> int {
        u8::MIN as int
    }

    open spec fn max_value() -> int {
        u8::MAX as int
    }

    proof fn lemma_bounds(x: Self) {
    }

    fn zero() -> (r: Self) {
        0
    }

    fn add_checked(self, o: Self) -> (r: Option<Self>) {
        self.checked_add(o)
    }

    fn sub_checked(self, o: Self) -> (r: Option<Self>) {
        self.checked_sub(o)
    }

    fn div_trunc(self, d: Self) -> (r: Self) {
        self / d
    }
}

impl NumKind for u16 {
    open spec fn value(&self) -> int {
        *self as int
    }

    open spec fn min_value() -> int {
        u16::MIN as int
    }

    open spec fn max_value() -> int {
        u16::MAX as int
    }

    proof fn lemma_bounds(x: Self) {
    }

    fn zero() -> (r: Self) {
        0
    }

    fn add_checked(self, o: Self) -> (r: Option<Self>) {
        self.checked_add(o)
    }

    fn sub_checked(self, o: Self) -> (r: Option<Self>) {
        self.checked_sub(o)
    }

    fn div_trunc(self, d: Self) -> (r: Self) {
        self / d
    }
}

impl NumKind for u32 {
    open spec fn value(&self) -> int {
        *self as int
    }

    open spec fn min_value() -> int {
        u32::MIN as int
    }

    open spec fn max_value() -> int {
        u32::MAX as int
    }

    proof fn lemma_bounds(x: Self) {
    }

    fn zero() -> (r: Self) {
        0
    }

    fn add_checked(self, o: Self) -> (r: Option<Self>) {
        self.checked_add(o)
    }

    fn sub_checked(self, o: Self) -> (r: Option<Self>) {
        self.checked_sub(o)
    }

    fn div_trunc(self, d: Self) -> (r: Self) {
        self / d
    }
}

impl NumKind for u64 {
    open spec fn value(&self) -> int {
        *self as int
    }

    open spec fn min_value() -> int {
        u64::MIN as int
    }

    open spec fn max_value() -> int {
        u64::MAX as int
    }

    proof fn lemma_bounds(x: Self) {
    }

    fn zero() -> (r: Self) {
        0
    }

    fn add_checked(self, o: Self) -> (r: Option<Self>) {
        self.checked_add(o)
    }

    fn sub_checked(self, o: Self) -> (r: Option<Self>) {
        self.checked_sub(o)
    }

    fn div_trunc(self, d: Self) -> (r: Self) {
        self / d
    }
}

impl NumKind for u128 {
    open spec fn value(&self) -> int {
        *self as int
    }

    open spec fn min_value() -> int {
        u128::MIN as int
    }

    open spec fn max_value() -> int {
        u128::MAX as int
    }

    proof fn lemma_bounds(x: Self) {
    }

    fn zero() -> (r: Self) {
        0
    }

    fn add_checked(self, o: Self) -> (r: Option<Self>) {
        self.checked_add(o)
    }

    fn sub_checked(self, o: Self) -> (r: Option<Self>) {
        self.checked_sub(o)
    }

    fn div_trunc(self, d: Self) -> (r: Self) {
        self / d
    }
}

impl NumKind for usize {
    open spec fn value(&self) -> int {
        *self as int
    }

    open spec fn min_value() -> int {
        usize::MIN as int
    }

    open spec fn max_value() -> int {
        usize::MAX as int
    }

    proof fn lemma_bounds(x: Self) {
    }

    fn zero() -> (r: Self) {
        0
    }

    fn add_checked(self, o: Self) -> (r: Option<Self>) {
        self.checked_add(o)
    }

    fn sub_checked(self, o: Self) -> (r: Option<Self>) {
        self.checked_sub(o)
    }

    fn div_trunc(self, d: Self) -> (r: Self) {
        self / d
    }
}

/// Converts between two primitive integer types.
///
/// Relies on `num_traits::cast::NumCast::from`, which for the primitive integers
/// goes through `ToPrimitive::to_*`: the same value when the target type can
/// hold it, and `None` otherwise.
#[verifier::external_body]
pub(crate) fn cast<S: NumKind + num_traits::NumCast, D: NumKind + num_traits::NumCast>(s: S) -> (r: Option<D>)
    ensures
        r is Some <==> D::min_value() <= s.value() <= D::max_value(),
        r matches Some(d) ==> d.value() == s.value(),
{
    <D as num_traits::NumCast>::from(s)
}

} // verus!
