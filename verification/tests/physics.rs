use rope_lib::blueprint::Blueprint;
use rope_lib::blueprint_to_world_transform::{
    BlueprintToWorldTransform, HybridTransform, LinearTransform, PolarTransform,
};
use rope_lib::dense_grid::{LocalPoint, I2};
use rope_lib::generator::{local_to_vec2, GeneratedStructure, Generator};
use rope_lib::rope::{
    AnyForce, ConstantForce, Degenerate, Force, InverseSquareForce, NodeType, Rope, RopeNode, World,
};
use rope_lib::scalar::{Scalar, Vec2};

#[derive(Copy, Clone, Debug, PartialEq)]
struct Real(f32);

impl Scalar for Real {
    fn from_ratio(numerator: i64, denominator: i64) -> Self {
        Real(numerator as f32 / denominator as f32)
    }

    fn add(&self, other: Self) -> Self {
        Real(self.0 + other.0)
    }

    fn sub(&self, other: Self) -> Self {
        Real(self.0 - other.0)
    }

    fn mul(&self, other: Self) -> Self {
        Real(self.0 * other.0)
    }

    fn div(&self, other: Self) -> Self {
        Real(self.0 / other.0)
    }

    fn neg(&self) -> Self {
        Real(-self.0)
    }

    fn sqrt(&self) -> Self {
        Real(self.0.sqrt())
    }

    fn atan2(&self, other: Self) -> Self {
        Real(self.0.atan2(other.0))
    }

    fn cos(&self) -> Self {
        Real(self.0.cos())
    }

    fn sin(&self) -> Self {
        Real(self.0.sin())
    }

    fn is_zero(&self) -> bool {
        self.0 == 0.0
    }
}

fn v(x: f32, y: f32) -> Vec2<Real> {
    Vec2::new(Real(x), Real(y))
}

fn xy(p: Vec2<Real>) -> (f32, f32) {
    (p.x.0, p.y.0)
}

fn close(a: f32, b: f32) -> bool {
    (a - b).abs() <= 1e-4 * (1.0 + a.abs().max(b.abs()))
}

fn near(p: Vec2<Real>, x: f32, y: f32) -> bool {
    close(p.x.0, x) && close(p.y.0, y)
}

fn distance(world: &World<Real, AnyForce<Real>>, a: usize, b: usize) -> f32 {
    world.get_node(a).pos.dist(world.get_node(b).pos).0
}

fn constant(x: f32, y: f32) -> AnyForce<Real> {
    AnyForce::Constant(ConstantForce { force: v(x, y) })
}

#[test]
fn vector_arithmetic() {
    let a = v(1.0, 2.0);
    let b = v(3.0, -5.0);
    assert_eq!(xy(a.add(b)), (4.0, -3.0));
    assert_eq!(xy(a.sub(b)), (-2.0, 7.0));
    assert_eq!(xy(a.mult(Real(2.5))), (2.5, 5.0));
    assert_eq!(a.dot(b).0, -7.0);
    assert_eq!(b.mag2().0, 34.0);
    assert_eq!(v(3.0, 4.0).mag().0, 5.0);
    assert_eq!(v(1.0, 1.0).dist(v(4.0, 5.0)).0, 5.0);
    assert_eq!(xy(Vec2::<Real>::default()), (0.0, 0.0));
}

#[test]
fn unit_vector_has_the_direction() {
    let unit = v(3.0, 4.0).norm().unwrap();
    assert!(near(unit, 0.6, 0.8));
    assert!(v(0.0, 0.0).norm().is_none());
}

#[test]
fn projection_lies_at_the_distance_towards_the_target() {
    let p = v(1.0, 1.0).project_dist_towards(v(4.0, 5.0), Real(10.0)).unwrap();
    assert!(near(p, 7.0, 9.0));
    let q = v(0.0, 0.0).project_dist_towards(v(-2.0, 0.0), Real(0.5)).unwrap();
    assert_eq!(xy(q), (-0.5, 0.0));
}

#[test]
fn projection_towards_the_same_point_is_refused() {
    assert!(v(2.0, 3.0).project_dist_towards(v(2.0, 3.0), Real(1.0)).is_none());
}

#[test]
fn constant_force_is_the_same_everywhere() {
    let force = ConstantForce { force: v(0.5, -1.0) };
    assert_eq!(xy(force.get_force(v(0.0, 0.0))), (0.5, -1.0));
    assert_eq!(xy(force.get_force(v(100.0, -3.0))), (0.5, -1.0));
    assert_eq!(xy(constant(0.5, -1.0).get_force(v(7.0, 7.0))), (0.5, -1.0));
}

#[test]
fn inverse_square_force_pulls_towards_its_source() {
    let force = InverseSquareForce { strength: Real(8.0), pos: v(0.0, 0.0) };
    // at the distance 2 the pull is 8 / 4
    assert!(near(force.get_force(v(2.0, 0.0)), -2.0, 0.0));
    assert!(near(force.get_force(v(0.0, -2.0)), 0.0, 2.0));
    // at the distance 5 the pull is 8 / 25, along (3, 4) / 5
    assert!(near(force.get_force(v(-3.0, -4.0)), 8.0 / 25.0 * 0.6, 8.0 / 25.0 * 0.8));
    let either = AnyForce::InverseSquare(InverseSquareForce { strength: Real(8.0), pos: v(0.0, 0.0) });
    assert!(near(either.get_force(v(2.0, 0.0)), -2.0, 0.0));
}

#[test]
fn inverse_square_force_is_nothing_at_its_source() {
    let force = InverseSquareForce { strength: Real(8.0), pos: v(1.0, 2.0) };
    assert_eq!(xy(force.get_force(v(1.0, 2.0))), (0.0, 0.0));
}

#[test]
fn nodes_get_their_indices_in_order() {
    let mut world: World<Real, AnyForce<Real>> = World::default();
    assert_eq!(world.add_node(v(1.0, 2.0)), 0);
    assert_eq!(world.add_node(v(3.0, 4.0)), 1);
    assert_eq!(world.add_node(v(3.0, 4.0)), 2);
    let node = world.get_node(1);
    assert_eq!(node.node_type, NodeType::Free);
    assert_eq!(xy(node.pos), (3.0, 4.0));
    assert_eq!(xy(node.prev_pos), (3.0, 4.0));
    assert_eq!(world.add_rope(0, 1), 0);
    assert_eq!(world.add_rope(2, 0), 1);
    assert_eq!(world.get_rope(1).from, 2);
    assert_eq!(world.get_rope(1).to, 0);
    assert!(!world.get_rope(1).broken);
}

#[test]
fn node_and_rope_can_be_changed() {
    let mut world: World<Real, AnyForce<Real>> = World::default();
    world.add_node(v(0.0, 0.0));
    world.add_node(v(1.0, 0.0));
    world.add_rope(0, 1);
    world.get_node_mut(1).node_type = NodeType::Fixed;
    world.get_node_mut(1).pos = v(5.0, 5.0);
    world.get_rope_mut(0).broken = true;
    assert_eq!(world.get_node(1).node_type, NodeType::Fixed);
    assert_eq!(xy(world.get_node(1).pos), (5.0, 5.0));
    assert_eq!(world.get_node(0).node_type, NodeType::Free);
    assert!(world.get_rope(0).broken);
}

#[test]
fn rope_is_as_long_as_its_nodes_are_apart_and_stays_so() {
    let mut world: World<Real, AnyForce<Real>> = World::default();
    let a = world.add_node(v(1.0, 1.0));
    let b = world.add_node(v(4.0, 5.0));
    let rope = world.add_rope(a, b);
    assert_eq!(world.get_rope(rope).length.0, 5.0);
    let made = Rope::new(b, a, &world);
    assert_eq!(made.length.0, 5.0);
    assert_eq!((made.from, made.to, made.broken), (1, 0, false));
    world.forces.push(constant(0.3, 1.0));
    for _ in 0..50 {
        assert_eq!(world.tick(Real(1.0)), Ok(()));
        assert_eq!(world.get_rope(rope).length.0, 5.0);
        assert_eq!((world.get_rope(rope).from, world.get_rope(rope).to), (a, b));
    }
    assert!(xy(world.get_node(a).pos) != (1.0, 1.0));
}

#[test]
fn rope_between_fixed_nodes_moves_nothing() {
    let mut world: World<Real, AnyForce<Real>> = World::default();
    let a = world.add_node(v(0.0, 0.0));
    let b = world.add_node(v(3.0, 7.0));
    world.get_node_mut(a).node_type = NodeType::Fixed;
    world.get_node_mut(b).node_type = NodeType::Fixed;
    world.add_rope(a, b);
    world.forces.push(constant(0.0, 1.0));
    // even pulled apart: the rope is 10 long now, the nodes are not asked
    world.get_node_mut(b).pos = v(30.0, 70.0);
    for _ in 0..25 {
        assert_eq!(world.tick(Real(1.0)), Ok(()));
        assert_eq!(xy(world.get_node(a).pos), (0.0, 0.0));
        assert_eq!(xy(world.get_node(b).pos), (30.0, 70.0));
    }
}

#[test]
fn fixed_nodes_at_one_place_do_not_jam() {
    let mut world: World<Real, AnyForce<Real>> = World::default();
    let a = world.add_node(v(1.0, 1.0));
    let b = world.add_node(v(1.0, 1.0));
    world.get_node_mut(a).node_type = NodeType::Fixed;
    world.get_node_mut(b).node_type = NodeType::Fixed;
    world.add_rope(a, b);
    assert_eq!(world.tick(Real(1.0)), Ok(()));
}

#[test]
fn free_nodes_at_one_place_jam_their_rope() {
    let mut world: World<Real, AnyForce<Real>> = World::default();
    let a = world.add_node(v(0.0, 0.0));
    let b = world.add_node(v(2.0, 0.0));
    let c = world.add_node(v(2.0, 0.0));
    world.add_rope(a, b);
    world.add_rope(b, c);
    assert_eq!(world.tick(Real(1.0)), Err(Degenerate { rope: 1 }));
    // a broken rope pulls no more, and jams no more
    world.get_rope_mut(1).broken = true;
    assert_eq!(world.tick(Real(1.0)), Ok(()));
}

#[test]
fn one_pull_of_a_rope_with_free_ends() {
    let mut world: World<Real, AnyForce<Real>> = World::default();
    let a = world.add_node(v(0.0, 0.0));
    let b = world.add_node(v(6.0, 8.0));
    let c = world.add_node(v(1.0, 1.0));
    let rope = world.add_rope(a, b);
    // pull the ends apart, about their middle (3, 4)
    world.get_node_mut(a).pos = v(-3.0, -4.0);
    world.get_node_mut(b).pos = v(9.0, 12.0);
    assert_eq!(world.tick_rope(rope), Ok(()));
    assert!(near(world.get_node(a).pos, 0.0, 0.0));
    assert!(near(world.get_node(b).pos, 6.0, 8.0));
    assert!(close(distance(&world, a, b), 10.0));
    assert_eq!(xy(world.get_node(a).prev_pos), (0.0, 0.0));
    assert_eq!(xy(world.get_node(c).pos), (1.0, 1.0));
    assert_eq!(world.get_rope(rope).length.0, 10.0);
    // a broken rope pulls no more
    world.get_node_mut(a).pos = v(-3.0, -4.0);
    world.get_rope_mut(rope).broken = true;
    assert_eq!(world.tick_rope(rope), Ok(()));
    assert_eq!(xy(world.get_node(a).pos), (-3.0, -4.0));
}

#[test]
fn one_pull_of_a_jammed_rope_changes_nothing() {
    let mut world: World<Real, AnyForce<Real>> = World::default();
    let a = world.add_node(v(2.0, 2.0));
    let b = world.add_node(v(2.0, 2.0));
    let rope = world.add_rope(a, b);
    assert_eq!(world.tick_rope(rope), Err(Degenerate { rope: 0 }));
    assert_eq!(xy(world.get_node(a).pos), (2.0, 2.0));
    assert_eq!(xy(world.get_node(b).pos), (2.0, 2.0));
}

#[test]
fn free_nodes_settle_at_the_length_of_their_rope() {
    let mut world: World<Real, AnyForce<Real>> = World::default();
    let a = world.add_node(v(-3.0, 0.0));
    let b = world.add_node(v(3.0, 8.0));
    world.add_rope(a, b);
    // pull the two apart, about their middle (0, 4)
    world.get_node_mut(a).pos = v(-6.0, -4.0);
    world.get_node_mut(a).prev_pos = v(-6.0, -4.0);
    world.get_node_mut(b).pos = v(6.0, 12.0);
    world.get_node_mut(b).prev_pos = v(6.0, 12.0);
    for _ in 0..20 {
        assert_eq!(world.tick(Real(1.0)), Ok(()));
    }
    assert!(close(distance(&world, a, b), 10.0));
    assert!(near(world.get_node(a).pos, -3.0, 0.0));
    assert!(near(world.get_node(b).pos, 3.0, 8.0));
}

#[test]
fn free_node_moves_on_with_friction() {
    let mut world: World<Real, AnyForce<Real>> = World::default();
    let a = world.add_node(v(0.0, 0.0));
    world.get_node_mut(a).pos = v(1.0, 0.0);
    assert_eq!(world.tick(Real(1.0)), Ok(()));
    assert_eq!(xy(world.get_node(a).prev_pos), (1.0, 0.0));
    assert_eq!(xy(world.get_node(a).pos), (1.0 + 0.98, 0.0));
}

#[test]
fn forces_add_up_on_a_free_node() {
    let mut world: World<Real, AnyForce<Real>> = World::default();
    let a = world.add_node(v(0.0, 0.0));
    world.add_force(constant(1.0, 0.0));
    world.add_force(constant(0.5, -2.0));
    assert_eq!(world.forces.len(), 2);
    assert_eq!(world.tick(Real(1.0)), Ok(()));
    assert_eq!(xy(world.get_node(a).pos), (1.5, -2.0));
    assert_eq!(xy(world.get_node(a).prev_pos), (0.0, 0.0));
    let mut node: RopeNode<Real> = RopeNode::new(v(2.0, 2.0));
    node.node_type = NodeType::Fixed;
    node.tick(&world.forces, Real(1.0));
    assert_eq!(xy(node.pos), (2.0, 2.0));
}

#[test]
fn step_takes_no_account_of_the_time() {
    let mut slow: World<Real, AnyForce<Real>> = World::default();
    let mut fast: World<Real, AnyForce<Real>> = World::default();
    for world in [&mut slow, &mut fast] {
        world.add_node(v(0.0, 0.0));
        world.add_node(v(4.0, 0.0));
        world.add_rope(0, 1);
        world.forces.push(constant(0.0, 1.0));
    }
    for _ in 0..5 {
        assert_eq!(slow.tick(Real(0.25)), Ok(()));
        assert_eq!(fast.tick(Real(4.0)), Ok(()));
    }
    assert_eq!(xy(slow.get_node(1).pos), xy(fast.get_node(1).pos));
}

#[test]
fn pinned_end_and_hanging_end() {
    let mut world: World<Real, AnyForce<Real>> = World::default();
    let a = world.add_node(v(0.0, 0.0));
    let b = world.add_node(v(10.0, 0.0));
    world.get_node_mut(a).node_type = NodeType::Fixed;
    world.add_rope(a, b);
    world.add_force(constant(0.0, 1.0));
    assert_eq!(world.tick(Real(1.0)), Ok(()));
    assert_eq!(xy(world.get_node(a).pos), (0.0, 0.0));
    // the force has moved the free node to (10, 1), which is 10.0499 away;
    // each of the 8 pulls halves what the distance is off by
    let pulled = distance(&world, a, b);
    let off = (101.0f32.sqrt() - 10.0) / 256.0;
    assert!((pulled - 10.0 - off).abs() < 1e-5);
    assert!(pulled < 10.001);
    assert!(world.get_node(b).pos.y.0 > 0.9);
    assert!(world.get_node(b).pos.x.0 < 10.0);
}

#[test]
fn linear_transform_puts_the_origin_on_the_surface() {
    let flat = LinearTransform::new(v(3.0, 4.0), v(0.0, 0.0), Real(20.0)).unwrap();
    assert_eq!(xy(flat.transform(v(0.0, 0.0))), (3.0, 4.0));
    // the normal is (0.6, 0.8), the tangent (-0.8, 0.6)
    assert!(near(flat.transform(v(1.0, 0.0)), 3.0 - 16.0, 4.0 + 12.0));
    assert!(near(flat.transform(v(0.0, 1.0)), 3.0 + 12.0, 4.0 + 16.0));
    assert!(near(flat.transform(v(0.5, 2.0)), 3.0 - 8.0 + 24.0, 4.0 + 6.0 + 32.0));
}

#[test]
fn transforms_need_a_surface_away_from_the_centre() {
    assert!(LinearTransform::new(v(1.0, 1.0), v(1.0, 1.0), Real(20.0)).is_none());
    assert!(HybridTransform::new(v(1.0, 1.0), v(1.0, 1.0), Real(20.0)).is_none());
}

#[test]
fn polar_transform_puts_the_origin_on_the_surface() {
    for surface in [(100.0, 0.0), (0.0, 100.0), (-60.0, 80.0), (30.0, -40.0), (-3.0, -4.0)] {
        let bent = PolarTransform::new(v(5.0 + surface.0, 7.0 + surface.1), v(5.0, 7.0), Real(20.0));
        assert!(near(bent.transform(v(0.0, 0.0)), 5.0 + surface.0, 7.0 + surface.1));
    }
    let above = PolarTransform::new(v(0.0, 10.0), v(0.0, 0.0), Real(2.0));
    assert!(near(above.transform(v(0.0, 0.0)), 0.0, 10.0));
    // a surface that is one point is that point
    let point = PolarTransform::new(v(2.0, 3.0), v(2.0, 3.0), Real(2.0));
    assert_eq!(xy(point.transform(v(0.0, 0.0))), (2.0, 3.0));
}

#[test]
fn polar_transform_turns_by_cells_and_rises_by_the_scale() {
    let bent = PolarTransform::new(v(105.0, 7.0), v(5.0, 7.0), Real(20.0));
    assert_eq!(bent.world_radius.0, 100.0);
    assert_eq!(bent.angle_base.0, 0.0);
    assert!(close(bent.theta.0, 0.2f32.atan()));
    // one cell up is one scale further out
    assert!(near(bent.transform(v(0.0, 1.0)), 125.0, 7.0));
    // one cell along is one cell angle around
    let angle = 0.2f32.atan();
    assert!(near(bent.transform(v(1.0, 0.0)), 5.0 + 100.0 * angle.cos(), 7.0 + 100.0 * angle.sin()));
}

#[test]
fn polar_transform_counts_its_angle_from_the_surface_point() {
    // the surface point lies above the centre: a quarter turn is the base
    let bent = PolarTransform::new(v(0.0, 100.0), v(0.0, 0.0), Real(20.0));
    let quarter = std::f32::consts::FRAC_PI_2;
    assert!(close(bent.angle_base.0, quarter));
    let angle = quarter + 2.0 * 0.2f32.atan();
    assert!(near(bent.transform(v(2.0, 0.0)), 100.0 * angle.cos(), 100.0 * angle.sin()));
    assert!(near(bent.transform(v(2.0, 3.0)), 160.0 * angle.cos(), 160.0 * angle.sin()));
}

#[test]
fn hybrid_transform_puts_the_origin_on_the_surface() {
    for surface in [(100.0, 0.0), (0.0, 100.0), (-60.0, 80.0), (30.0, -40.0)] {
        let placed =
            HybridTransform::new(v(5.0 + surface.0, 7.0 + surface.1), v(5.0, 7.0), Real(20.0))
                .unwrap();
        let origin = placed.transform(v(0.0, 0.0));
        assert!(near(origin, 5.0 + surface.0, 7.0 + surface.1));
    }
}

#[test]
fn hybrid_transform_raises_along_the_normal_and_bends_less_higher_up() {
    let placed = HybridTransform::new(v(0.0, 100.0), v(0.0, 0.0), Real(20.0)).unwrap();
    assert!(near(placed.transform(v(0.0, 2.0)), 0.0, 140.0));
    let angle = 0.2f32.atan();
    let quarter = std::f32::consts::FRAC_PI_2;
    let low = placed.transform(v(1.0, 0.0));
    assert!(near(low, 100.0 * (quarter + angle).cos(), 100.0 * (quarter + angle).sin()));
    let eased = quarter + angle / (1.0 + 0.0125 * 4.0);
    let high = placed.transform(v(1.0, 4.0));
    assert!(near(high, 100.0 * eased.cos(), 100.0 * eased.sin() + 80.0));
}

#[test]
fn blueprint_position_becomes_a_vector() {
    let corner: Vec2<Real> = local_to_vec2(I2::new(3, -2).to_v2());
    assert_eq!(xy(corner), (3.0, -2.0));
    let apex: Vec2<Real> = local_to_vec2(LocalPoint { twice_x: 7, twice_y: 8 });
    assert_eq!(xy(apex), (3.5, 4.0));
}

#[test]
fn blueprint_is_placed_after_what_the_world_has() {
    let mut world: World<Real, AnyForce<Real>> = World::default();
    world.add_node(v(-1.0, -1.0));
    world.add_node(v(-2.0, -2.0));
    world.add_rope(0, 1);
    let mut blue = Blueprint::default();
    blue.try_add_node(I2::new(0, 0));
    blue.try_add_node(I2::new(1, 0));
    blue.try_add_node(I2::new(0, 1));
    let apex = blue.add_off_grid(LocalPoint { twice_x: 1, twice_y: 4 });
    blue.try_add_rope_ids(0, 1, true);
    blue.try_add_rope_ids(2, 0, false);
    blue.try_add_rope_ids(2, apex, true);
    let flat = LinearTransform::new(v(0.0, 10.0), v(0.0, 0.0), Real(2.0)).unwrap();
    let generated = GeneratedStructure::from_blueprint(&blue, &mut world, &flat);
    assert_eq!(generated.floor_pinned_nodes, vec![2, 3]);
    assert_eq!(generated.nodes, vec![4, 5]);
    assert_eq!(generated.ropes, vec![1, 3]);
    assert_eq!(generated.ropes_nodraw, vec![2]);
    assert_eq!(world.nodes.len(), 6);
    assert_eq!(world.ropes.len(), 4);
    // the normal is (0, 1), the tangent (-1, 0)
    assert_eq!(xy(world.get_node(0).pos), (-1.0, -1.0));
    assert_eq!(xy(world.get_node(2).pos), (0.0, 10.0));
    assert_eq!(xy(world.get_node(3).pos), (-2.0, 10.0));
    assert_eq!(xy(world.get_node(4).pos), (0.0, 12.0));
    assert_eq!(xy(world.get_node(5).pos), (-1.0, 14.0));
    for id in 2..6 {
        assert_eq!(world.get_node(id).node_type, NodeType::Free);
        assert_eq!(xy(world.get_node(id).prev_pos), xy(world.get_node(id).pos));
    }
    assert_eq!((world.get_rope(1).from, world.get_rope(1).to), (2, 3));
    assert_eq!((world.get_rope(2).from, world.get_rope(2).to), (4, 2));
    assert_eq!((world.get_rope(3).from, world.get_rope(3).to), (4, 5));
    assert_eq!(world.get_rope(1).length.0, 2.0);
    assert_eq!(world.get_rope(2).length.0, 2.0);
    assert!(close(world.get_rope(3).length.0, 5.0f32.sqrt()));
    assert!(!world.get_rope(3).broken);
}

#[test]
fn blueprint_can_be_placed_twice() {
    let mut world: World<Real, AnyForce<Real>> = World::default();
    let blue = Generator::gen_tower(3).to_blueprint();
    let placed = HybridTransform::new(v(0.0, 100.0), v(0.0, 0.0), Real(20.0)).unwrap();
    let first = GeneratedStructure::from_blueprint(&blue, &mut world, &placed);
    let second = GeneratedStructure::from_blueprint(&blue, &mut world, &placed);
    assert_eq!(first.floor_pinned_nodes, vec![0, 1]);
    assert_eq!(second.floor_pinned_nodes, vec![9, 10]);
    assert_eq!(first.nodes.len(), 7);
    assert_eq!(second.nodes, vec![11, 12, 13, 14, 15, 16, 17]);
    assert_eq!(first.ropes.len() + first.ropes_nodraw.len(), 18);
    assert_eq!(second.ropes_nodraw, vec![18 + 13]);
    assert_eq!(world.nodes.len(), 18);
    assert_eq!(world.ropes.len(), 36);
    for id in first.floor_pinned_nodes.iter().chain(second.floor_pinned_nodes.iter()) {
        world.get_node_mut(*id).node_type = NodeType::Fixed;
    }
    world.forces.push(constant(0.0, -0.1));
    for _ in 0..10 {
        assert_eq!(world.tick(Real(1.0)), Ok(()));
    }
    assert!(near(world.get_node(0).pos, 0.0, 100.0));
}
