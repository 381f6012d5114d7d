//! The ways to place a blueprint in the world: each maps a position of the
//! blueprint to a position on or above a surface, given a point of the
//! surface, the centre that the surface curves around, and a scale.

use crate::scalar::{
    is_atan2, is_cos, is_dist, is_negation, is_norm, is_product, is_quotient, is_ratio, is_scaled,
    is_sin, is_sum, is_vec_difference, is_vec_sum, may_vanish, Scalar, Vec2,
};
use vstd::prelude::*;

verus! {

/// A way to place a blueprint in the world.
pub trait BlueprintToWorldTransform<S: Scalar> {
    /// The position in the world of the blueprint position `pos`.
    fn transform(&self, pos: Vec2<S>) -> Vec2<S>;
}

/// `r` is a result of the transform `transform` for `pos`.
pub open spec fn is_transformed<S: Scalar, T: BlueprintToWorldTransform<S>>(
    transform: T,
    pos: Vec2<S>,
    r: Vec2<S>,
) -> bool {
    call_ensures(T::transform, (&transform, pos), r)
}

/// `tangent` is a result of `normal` turned by a quarter: `(-normal.y,
/// normal.x)`.
pub open spec fn is_quarter_turn<S: Scalar>(normal: Vec2<S>, tangent: Vec2<S>) -> bool {
    is_negation(normal.y, tangent.x) && tangent.y == normal.x
}

/// `r` is a result of `base + direction * (a * b)`.
pub open spec fn is_offset_along<S: Scalar>(
    base: Vec2<S>,
    direction: Vec2<S>,
    a: S,
    b: S,
    r: Vec2<S>,
) -> bool {
    exists|k: S, step: Vec2<S>|
        #![trigger is_product(a, b, k), is_vec_sum(base, step, r)]
        is_product(a, b, k) && is_scaled(direction, k, step) && is_vec_sum(base, step, r)
}

/// `r` is a result of the point at the radius `radius` and the angle
/// `angle` around `centre`: `centre + (radius * cos angle, radius * sin
/// angle)`.
pub open spec fn is_polar_point<S: Scalar>(
    centre: Vec2<S>,
    radius: S,
    angle: S,
    r: Vec2<S>,
) -> bool {
    exists|c: S, s: S, arm: Vec2<S>|
        #![trigger is_cos(angle, c), is_sin(angle, s), is_vec_sum(centre, arm, r)]
        is_cos(angle, c) && is_sin(angle, s) && is_product(radius, c, arm.x) && is_product(
            radius,
            s,
            arm.y,
        ) && is_vec_sum(centre, arm, r)
}

/// The blueprint laid out flat on the tangent of the surface.
pub struct LinearTransform<S: Scalar> {
    pub offset: Vec2<S>,
    pub tangent: Vec2<S>,
    pub normal: Vec2<S>,
    pub scale: S,
}

impl<S: Scalar> LinearTransform<S> {
    /// The transform for the surface point `world_surface`, or `None` where
    /// the surface point lies in the centre, so that the surface has no
    /// normal. The normal points from the centre to the surface point; the
    /// tangent is the normal turned by a quarter.
    pub fn new(world_surface: Vec2<S>, world_centre: Vec2<S>, scale: S) -> (t: Option<Self>)
        ensures
            match t {
                Some(t) => {
                    &&& t.offset == world_surface
                    &&& t.scale == scale
                    &&& exists|up: Vec2<S>| #[trigger]
                        is_vec_difference(world_surface, world_centre, up) && is_norm(up, t.normal)
                    &&& is_quarter_turn(t.normal, t.tangent)
                },
                None => exists|up: Vec2<S>| #[trigger]
                    is_vec_difference(world_surface, world_centre, up) && may_vanish(up),
            },
    {
        let up = world_surface.sub(world_centre);
        match up.norm() {
            Some(normal) => {
                let tangent = Vec2::new(normal.y.neg(), normal.x);
                Some(Self { offset: world_surface, scale, normal, tangent })
            },
            None => {
                None
            },
        }
    }

    /// `r` is a result of this transform for `pos`: `offset + tangent *
    /// (pos.x * scale) + normal * (pos.y * scale)`, added in this order.
    pub open spec fn maps(&self, pos: Vec2<S>, r: Vec2<S>) -> bool {
        exists|along: Vec2<S>|
            #![trigger is_offset_along(self.offset, self.tangent, pos.x, self.scale, along)]
            is_offset_along(self.offset, self.tangent, pos.x, self.scale, along)
                && is_offset_along(along, self.normal, pos.y, self.scale, r)
    }
}

impl<S: Scalar> BlueprintToWorldTransform<S> for LinearTransform<S> {
    fn transform(&self, pos: Vec2<S>) -> (p: Vec2<S>)
        ensures
            self.maps(pos, p),
    {
        let x = pos.x.mul(self.scale);
        let across = self.tangent.mult(x);
        let along = self.offset.add(across);
        assert(is_offset_along(self.offset, self.tangent, pos.x, self.scale, along)) by {
            assert(is_product(pos.x, self.scale, x) && is_vec_sum(self.offset, across, along));
        }
        let y = pos.y.mul(self.scale);
        let above = self.normal.mult(y);
        let p = along.add(above);
        assert(is_offset_along(along, self.normal, pos.y, self.scale, p)) by {
            assert(is_product(pos.y, self.scale, y) && is_vec_sum(along, above, p));
        }
        p
    }
}

/// The blueprint bent around the centre: its x is an angle, counted from the
/// direction of the surface point, and its y a radius.
pub struct PolarTransform<S: Scalar> {
    pub theta: S,
    pub world_radius: S,
    pub world_centre: Vec2<S>,
    pub angle_base: S,
    pub scale: S,
}

impl<S: Scalar> PolarTransform<S> {
    /// The transform for the surface point `world_surface`: the radius of
    /// the surface is its distance from the centre; one cell is as wide as
    /// the angle of the point with the x `world_radius` and the y `scale`;
    /// and the angle of the blueprint's origin is the angle of the surface
    /// point as seen from the centre.
    pub fn new(world_surface: Vec2<S>, world_centre: Vec2<S>, scale: S) -> (t: Self)
        ensures
            t.world_centre == world_centre,
            t.scale == scale,
            is_dist(world_centre, world_surface, t.world_radius),
            is_atan2(scale, t.world_radius, t.theta),
            exists|up: Vec2<S>| #[trigger]
                is_vec_difference(world_surface, world_centre, up) && is_atan2(
                    up.y,
                    up.x,
                    t.angle_base,
                ),
    {
        let world_radius = world_centre.dist(world_surface);
        let theta = scale.atan2(world_radius);
        let up = world_surface.sub(world_centre);
        let angle_base = up.y.atan2(up.x);
        assert(is_vec_difference(world_surface, world_centre, up));

        Self { theta, world_radius, world_centre, angle_base, scale }
    }

    /// `r` is a result of this transform for `pos`: the point at the angle
    /// `angle_base + pos.x * theta` and the radius `world_radius + pos.y *
    /// scale` around the centre.
    pub open spec fn maps(&self, pos: Vec2<S>, r: Vec2<S>) -> bool {
        exists|turn: S, angle: S, rise: S, radius: S|
            #![trigger is_sum(self.angle_base, turn, angle), is_product(pos.y, self.scale, rise), is_polar_point(self.world_centre, radius, angle, r)]
            is_product(pos.x, self.theta, turn) && is_sum(self.angle_base, turn, angle)
                && is_product(pos.y, self.scale, rise) && is_sum(self.world_radius, rise, radius)
                && is_polar_point(self.world_centre, radius, angle, r)
    }
}

impl<S: Scalar> BlueprintToWorldTransform<S> for PolarTransform<S> {
    fn transform(&self, pos: Vec2<S>) -> (p: Vec2<S>)
        ensures
            self.maps(pos, p),
    {
        let turn = pos.x.mul(self.theta);
        let polar_angle = self.angle_base.add(turn);
        let rise = pos.y.mul(self.scale);
        let polar_r = self.world_radius.add(rise);

        let c = polar_angle.cos();
        let s = polar_angle.sin();
        let arm = Vec2::new(polar_r.mul(c), polar_r.mul(s));
        let p = self.world_centre.add(arm);
        assert(is_polar_point(self.world_centre, polar_r, polar_angle, p)) by {
            assert(is_cos(polar_angle, c) && is_sin(polar_angle, s) && is_vec_sum(
                self.world_centre,
                arm,
                p,
            ));
        }
        assert(is_sum(self.angle_base, turn, polar_angle) && is_product(pos.y, self.scale, rise));
        p
    }
}

/// The blueprint with its foot bent around the centre and its height laid
/// out along the normal of the surface. Higher cells are bent less, so that
/// a tall structure does not fan out.
pub struct HybridTransform<S: Scalar> {
    pub theta: S,
    pub world_radius: S,
    pub world_centre: Vec2<S>,
    pub angle_base: S,
    pub scale: S,
    pub normal: Vec2<S>,
}

impl<S: Scalar> HybridTransform<S> {
    /// The transform for the surface point `world_surface`, or `None` where
    /// the surface point lies in the centre, so that the surface has no
    /// normal. Radius and cell angle are those of the polar transform; the
    /// normal points from the centre to the surface point, and the angle of
    /// the normal is the angle of the blueprint's origin.
    pub fn new(world_surface: Vec2<S>, world_centre: Vec2<S>, scale: S) -> (t: Option<Self>)
        ensures
            match t {
                Some(t) => {
                    &&& t.world_centre == world_centre
                    &&& t.scale == scale
                    &&& is_dist(world_centre, world_surface, t.world_radius)
                    &&& is_atan2(scale, t.world_radius, t.theta)
                    &&& exists|up: Vec2<S>| #[trigger]
                        is_vec_difference(world_surface, world_centre, up) && is_norm(up, t.normal)
                    &&& is_atan2(t.normal.y, t.normal.x, t.angle_base)
                },
                None => exists|up: Vec2<S>| #[trigger]
                    is_vec_difference(world_surface, world_centre, up) && may_vanish(up),
            },
    {
        let world_radius = world_centre.dist(world_surface);
        let theta = scale.atan2(world_radius);
        let up = world_surface.sub(world_centre);
        match up.norm() {
            Some(normal) => {
                let angle_base = normal.y.atan2(normal.x);
                Some(Self { theta, world_radius, world_centre, scale, normal, angle_base })
            },
            None => {
                None
            },
        }
    }

    /// `a` is a result of the angle of the foot of the blueprint column
    /// `pos.x` at the height `pos.y`: `angle_base + (pos.x * theta) / (1 +
    /// (125/10000) * pos.y)`.
    pub open spec fn foot_angle(&self, pos: Vec2<S>, a: S) -> bool {
        exists|turn: S, one: S, rate: S, damp: S, spread: S, eased: S|
            #![trigger is_product(pos.x, self.theta, turn), is_ratio(1, 1, one), is_product(rate, pos.y, damp), is_sum(one, damp, spread), is_quotient(turn, spread, eased)]
            is_product(pos.x, self.theta, turn) && is_ratio(1, 1, one) && is_ratio(
                125,
                10000,
                rate,
            ) && is_product(rate, pos.y, damp) && is_sum(one, damp, spread) && is_quotient(
                turn,
                spread,
                eased,
            ) && is_sum(self.angle_base, eased, a)
    }

    /// `r` is a result of this transform for `pos`: the point of the
    /// surface at the foot angle of `pos`, plus `normal * (pos.y * scale)`.
    pub open spec fn maps(&self, pos: Vec2<S>, r: Vec2<S>) -> bool {
        exists|angle: S, base_point: Vec2<S>|
            #![trigger self.foot_angle(pos, angle), is_polar_point(self.world_centre, self.world_radius, angle, base_point)]
            self.foot_angle(pos, angle) && is_polar_point(
                self.world_centre,
                self.world_radius,
                angle,
                base_point,
            ) && is_offset_along(base_point, self.normal, pos.y, self.scale, r)
    }
}

impl<S: Scalar> BlueprintToWorldTransform<S> for HybridTransform<S> {
    fn transform(&self, pos: Vec2<S>) -> (p: Vec2<S>)
        ensures
            self.maps(pos, p),
    {
        let turn = pos.x.mul(self.theta);
        let one = S::from_ratio(1, 1);
        let rate = S::from_ratio(125, 10000);
        let damp = rate.mul(pos.y);
        let spread = one.add(damp);
        let eased = turn.div(spread);
        let base_point_polar_angle = self.angle_base.add(eased);
        assert(self.foot_angle(pos, base_point_polar_angle)) by {
            assert(is_product(pos.x, self.theta, turn) && is_ratio(1, 1, one) && is_product(
                rate,
                pos.y,
                damp,
            ) && is_sum(one, damp, spread) && is_quotient(turn, spread, eased));
        }
        let c = base_point_polar_angle.cos();
        let s = base_point_polar_angle.sin();
        let arm = Vec2::new(self.world_radius.mul(c), self.world_radius.mul(s));
        let base_point = self.world_centre.add(arm);
        assert(is_polar_point(
            self.world_centre,
            self.world_radius,
            base_point_polar_angle,
            base_point,
        )) by {
            assert(is_cos(base_point_polar_angle, c) && is_sin(base_point_polar_angle, s)
                && is_vec_sum(self.world_centre, arm, base_point));
        }
        let rise = pos.y.mul(self.scale);
        let above = self.normal.mult(rise);
        let p = base_point.add(above);
        assert(is_offset_along(base_point, self.normal, pos.y, self.scale, p)) by {
            assert(is_product(pos.y, self.scale, rise) && is_vec_sum(base_point, above, p));
        }
        p
    }
}

} // verus!
