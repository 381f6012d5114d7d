//! The numbers of the simulation and the vectors made of them.
//!
//! The coordinates of the simulation are not integers, and what their
//! arithmetic computes is not stated here. The arithmetic is a trait, and a
//! contract that speaks of a number says by which operations, on what, the
//! number was made.

use vstd::prelude::*;

verus! {

/// The arithmetic of the simulation's numbers. An implementation computes
/// with the numbers of its choice; nothing is asked of the results.
pub trait Scalar: Copy {
    /// The number `numerator / denominator`.
    fn from_ratio(numerator: i64, denominator: i64) -> Self;

    /// The sum `self + other`.
    fn add(&self, other: Self) -> Self;

    /// The difference `self - other`.
    fn sub(&self, other: Self) -> Self;

    /// The product `self * other`.
    fn mul(&self, other: Self) -> Self;

    /// The quotient `self / other`.
    fn div(&self, other: Self) -> Self;

    /// The number `-self`.
    fn neg(&self) -> Self;

    /// The square root of `self`.
    fn sqrt(&self) -> Self;

    /// The angle of the point that has `self` as its y and `other` as its x.
    fn atan2(&self, other: Self) -> Self;

    /// The cosine of the angle `self`.
    fn cos(&self) -> Self;

    /// The sine of the angle `self`.
    fn sin(&self) -> Self;

    /// Whether `self` is zero.
    fn is_zero(&self) -> bool;
}

/// `r` is a result of `Scalar::from_ratio` for `numerator / denominator`.
pub open spec fn is_ratio<S: Scalar>(numerator: i64, denominator: i64, r: S) -> bool {
    call_ensures(S::from_ratio, (numerator, denominator), r)
}

/// `r` is a result of `a + b`.
pub open spec fn is_sum<S: Scalar>(a: S, b: S, r: S) -> bool {
    call_ensures(S::add, (&a, b), r)
}

/// `r` is a result of `a - b`.
pub open spec fn is_difference<S: Scalar>(a: S, b: S, r: S) -> bool {
    call_ensures(S::sub, (&a, b), r)
}

/// `r` is a result of `a * b`.
pub open spec fn is_product<S: Scalar>(a: S, b: S, r: S) -> bool {
    call_ensures(S::mul, (&a, b), r)
}

/// `r` is a result of `a / b`.
pub open spec fn is_quotient<S: Scalar>(a: S, b: S, r: S) -> bool {
    call_ensures(S::div, (&a, b), r)
}

/// `r` is a result of `-a`.
pub open spec fn is_negation<S: Scalar>(a: S, r: S) -> bool {
    call_ensures(S::neg, (&a,), r)
}

/// `r` is a result of the square root of `a`.
pub open spec fn is_root<S: Scalar>(a: S, r: S) -> bool {
    call_ensures(S::sqrt, (&a,), r)
}

/// `r` is a result of the angle of the point with the coordinates `x` and
/// `y`.
pub open spec fn is_atan2<S: Scalar>(y: S, x: S, r: S) -> bool {
    call_ensures(S::atan2, (&y, x), r)
}

/// `r` is a result of the cosine of `a`.
pub open spec fn is_cos<S: Scalar>(a: S, r: S) -> bool {
    call_ensures(S::cos, (&a,), r)
}

/// `r` is a result of the sine of `a`.
pub open spec fn is_sin<S: Scalar>(a: S, r: S) -> bool {
    call_ensures(S::sin, (&a,), r)
}

/// `b` is a result of the test whether `a` is zero.
pub open spec fn is_zero_test<S: Scalar>(a: S, b: bool) -> bool {
    call_ensures(S::is_zero, (&a,), b)
}

/// A vector of the plane.
#[derive(Copy, Debug)]
pub struct Vec2<S: Scalar> {
    pub x: S,
    pub y: S,
}

impl<S: Scalar> Clone for Vec2<S> {
    fn clone(&self) -> (v: Self)
        ensures
            v == *self,
    {
        *self
    }
}

/// `r` is a result of `a + b`, coordinate by coordinate.
pub open spec fn is_vec_sum<S: Scalar>(a: Vec2<S>, b: Vec2<S>, r: Vec2<S>) -> bool {
    is_sum(a.x, b.x, r.x) && is_sum(a.y, b.y, r.y)
}

/// `r` is a result of `a - b`, coordinate by coordinate.
pub open spec fn is_vec_difference<S: Scalar>(a: Vec2<S>, b: Vec2<S>, r: Vec2<S>) -> bool {
    is_difference(a.x, b.x, r.x) && is_difference(a.y, b.y, r.y)
}

/// `r` is a result of `a` with each coordinate multiplied by `k`.
pub open spec fn is_scaled<S: Scalar>(a: Vec2<S>, k: S, r: Vec2<S>) -> bool {
    is_product(a.x, k, r.x) && is_product(a.y, k, r.y)
}

/// `r` is a result of `a.x * b.x + a.y * b.y`.
pub open spec fn is_dot<S: Scalar>(a: Vec2<S>, b: Vec2<S>, r: S) -> bool {
    exists|xx: S, yy: S|
        #![trigger is_product(a.x, b.x, xx), is_product(a.y, b.y, yy)]
        is_product(a.x, b.x, xx) && is_product(a.y, b.y, yy) && is_sum(xx, yy, r)
}

/// `r` is a result of the length of `a`: the square root of `a` dotted with
/// itself.
pub open spec fn is_mag<S: Scalar>(a: Vec2<S>, r: S) -> bool {
    exists|squared: S| #[trigger] is_dot(a, a, squared) && is_root(squared, r)
}

/// `r` is a result of the distance from `a` to `b`: the square root of
/// `dx * dx + dy * dy`, for the differences `dx` and `dy` of the coordinates.
pub open spec fn is_dist<S: Scalar>(a: Vec2<S>, b: Vec2<S>, r: S) -> bool {
    exists|d: Vec2<S>| #[trigger] is_vec_difference(a, b, d) && is_mag(d, r)
}

/// `r` is a result of `a` made one long: `a` with each coordinate
/// multiplied by `1 / m`, for the length `m` of `a`.
pub open spec fn is_norm<S: Scalar>(a: Vec2<S>, r: Vec2<S>) -> bool {
    exists|m: S, one: S, k: S|
        #![trigger is_mag(a, m), is_quotient(one, m, k)]
        is_mag(a, m) && is_zero_test(m, false) && is_ratio(1, 1, one) && is_quotient(one, m, k)
            && is_scaled(a, k, r)
}

/// `r` is a result of the point at the distance `dist` from `a` towards
/// `b`: `a + d * (dist / m)`, for `d = b - a` and the length `m` of `d`.
pub open spec fn is_projection<S: Scalar>(a: Vec2<S>, b: Vec2<S>, dist: S, r: Vec2<S>) -> bool {
    exists|d: Vec2<S>, m: S, k: S, step: Vec2<S>|
        #![trigger is_vec_difference(b, a, d), is_quotient(dist, m, k), is_vec_sum(a, step, r)]
        is_vec_difference(b, a, d) && is_mag(d, m) && is_zero_test(m, false) && is_quotient(
            dist,
            m,
            k,
        ) && is_scaled(d, k, step) && is_vec_sum(a, step, r)
}

/// The direction from `a` to `b` may have no length: a result of the length
/// of `b - a` tested as zero.
pub open spec fn may_coincide<S: Scalar>(a: Vec2<S>, b: Vec2<S>) -> bool {
    exists|d: Vec2<S>, m: S|
        #![trigger is_vec_difference(b, a, d), is_mag(d, m)]
        is_vec_difference(b, a, d) && is_mag(d, m) && is_zero_test(m, true)
}

/// `a` may have no length: a result of its length tested as zero.
pub open spec fn may_vanish<S: Scalar>(a: Vec2<S>) -> bool {
    exists|m: S| #[trigger] is_mag(a, m) && is_zero_test(m, true)
}

/// `v` is a result of the vector with both coordinates zero.
pub open spec fn is_origin<S: Scalar>(v: Vec2<S>) -> bool {
    is_ratio(0, 1, v.x) && is_ratio(0, 1, v.y)
}

impl<S: Scalar> Default for Vec2<S> {
    /// The vector with both coordinates zero.
    fn default() -> (v: Self)
        ensures
            is_origin(v),
    {
        Vec2 { x: S::from_ratio(0, 1), y: S::from_ratio(0, 1) }
    }
}

impl<S: Scalar> Vec2<S> {
    /// The vector with the coordinates `x` and `y`.
    pub fn new(x: S, y: S) -> (v: Self)
        ensures
            v.x == x,
            v.y == y,
    {
        Self { x, y }
    }

    /// The sum of the two vectors, coordinate by coordinate.
    pub fn add(&self, other: Self) -> (v: Self)
        ensures
            is_vec_sum(*self, other, v),
    {
        Self::new(self.x.add(other.x), self.y.add(other.y))
    }

    /// The difference of the two vectors, coordinate by coordinate.
    pub fn sub(&self, other: Self) -> (v: Self)
        ensures
            is_vec_difference(*self, other, v),
    {
        Self::new(self.x.sub(other.x), self.y.sub(other.y))
    }

    /// The vector with each coordinate multiplied by `k`.
    pub fn mult(&self, k: S) -> (v: Self)
        ensures
            is_scaled(*self, k, v),
    {
        Self::new(self.x.mul(k), self.y.mul(k))
    }

    /// The distance from this point to `other`.
    pub fn dist(&self, other: Self) -> (d: S)
        ensures
            is_dist(*self, other, d),
    {
        let dx = self.x.sub(other.x);
        let dy = self.y.sub(other.y);
        let xx = dx.mul(dx);
        let yy = dy.mul(dy);
        let squared = xx.add(yy);
        let d = squared.sqrt();
        proof {
            let diff = Vec2 { x: dx, y: dy };
            assert(is_product(diff.x, diff.x, xx) && is_product(diff.y, diff.y, yy));
            assert(is_dot(diff, diff, squared));
            assert(is_vec_difference(*self, other, diff));
        }
        d
    }

    /// The dot product of the two vectors.
    pub fn dot(&self, other: Self) -> (d: S)
        ensures
            is_dot(*self, other, d),
    {
        let xx = self.x.mul(other.x);
        let yy = self.y.mul(other.y);
        let d = xx.add(yy);
        assert(is_product(self.x, other.x, xx) && is_product(self.y, other.y, yy));
        d
    }

    /// The length of the vector, squared.
    pub fn mag2(&self) -> (m: S)
        ensures
            is_dot(*self, *self, m),
    {
        self.dot(*self)
    }

    /// The length of the vector.
    pub fn mag(&self) -> (m: S)
        ensures
            is_mag(*self, m),
    {
        let squared = self.mag2();
        let m = squared.sqrt();
        m
    }

    /// The vector made one long, or `None` for a vector whose length tests
    /// as zero, which has no direction.
    pub fn norm(&self) -> (v: Option<Self>)
        ensures
            match v {
                Some(unit) => is_norm(*self, unit),
                None => may_vanish(*self),
            },
    {
        let m = self.mag();
        if m.is_zero() {
            return None;
        }
        let one = S::from_ratio(1, 1);
        let k = one.div(m);
        let unit = self.mult(k);
        assert(is_mag(*self, m) && is_quotient(one, m, k));
        Some(unit)
    }

    /// The point at the distance `dist` from this one towards `other`, or
    /// `None` where the distance between the two tests as zero, so that
    /// there is no direction to go in.
    pub fn project_dist_towards(&self, other: Self, dist: S) -> (v: Option<Self>)
        ensures
            match v {
                Some(point) => is_projection(*self, other, dist, point),
                None => may_coincide(*self, other),
            },
    {
        let diff = other.sub(*self);

        let diff_mag = diff.mag();
        if diff_mag.is_zero() {
            return None;
        }
        let k = dist.div(diff_mag);
        let diff_with_dist = diff.mult(k);

        let point = self.add(diff_with_dist);
        assert(is_vec_difference(other, *self, diff) && is_quotient(dist, diff_mag, k)
            && is_vec_sum(*self, diff_with_dist, point));
        Some(point)
    }
}

} // verus!
