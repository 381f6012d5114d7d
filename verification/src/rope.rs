//! Point masses joined by ropes, the forces on them, and the step that
//! moves them.

use crate::scalar::{
    is_dot, is_mag, is_origin, is_projection, is_quotient, is_ratio, is_scaled, is_vec_difference,
    is_vec_sum, is_zero_test, may_coincide, is_dist, Scalar, Vec2,
};
use vstd::prelude::*;

verus! {

/// Whether a node moves.
#[derive(Clone, Copy, Debug, PartialEq, Eq, Structural)]
pub enum NodeType {
    Fixed,
    Free,
}

/// A point mass: where it is, and where it was one step ago.
#[derive(Debug, Copy)]
pub struct RopeNode<S: Scalar> {
    pub node_type: NodeType,
    pub pos: Vec2<S>,
    pub prev_pos: Vec2<S>,
}

impl<S: Scalar> Clone for RopeNode<S> {
    fn clone(&self) -> (node: Self)
        ensures
            node == *self,
    {
        *self
    }
}

/// A rope between two nodes of one world, with the length that it had when
/// it was made. A broken rope pulls no more.
#[derive(Copy, Debug)]
pub struct Rope<S: Scalar> {
    pub from: usize,
    pub to: usize,
    pub length: S,
    pub broken: bool,
}

impl<S: Scalar> Clone for Rope<S> {
    fn clone(&self) -> (rope: Self)
        ensures
            rope == *self,
    {
        *self
    }
}

/// Something to collide with. No world has any yet.
pub struct Collider {}

/// A field of force: what pulls on a node at a given place.
pub trait Force<S: Scalar> {
    /// The force on a node at `rope_node_pos`.
    fn get_force(&self, rope_node_pos: Vec2<S>) -> Vec2<S>;
}

/// `f` is a result of the force `force` at `pos`.
pub open spec fn is_force<S: Scalar, F: Force<S>>(force: F, pos: Vec2<S>, f: Vec2<S>) -> bool {
    call_ensures(F::get_force, (&force, pos), f)
}

/// The same force everywhere.
pub struct ConstantForce<S: Scalar> {
    pub force: Vec2<S>,
}

impl<S: Scalar> Force<S> for ConstantForce<S> {
    fn get_force(&self, rope_node_pos: Vec2<S>) -> (f: Vec2<S>)
        ensures
            f == self.force,
    {
        self.force
    }
}

/// A force towards a point, weaker with the square of the distance.
pub struct InverseSquareForce<S: Scalar> {
    pub strength: S,
    pub pos: Vec2<S>,
}

/// `f` is a result of the pull of a source of the strength `strength` at
/// `source` on a node at `at`: nothing where the squared distance tests as
/// zero; else `d * ((strength / m2) / m)`, for `d = source - at`, its length
/// `m` and its squared length `m2`.
pub open spec fn is_inverse_square<S: Scalar>(
    strength: S,
    source: Vec2<S>,
    at: Vec2<S>,
    f: Vec2<S>,
) -> bool {
    exists|d: Vec2<S>, m2: S|
        #![trigger is_vec_difference(source, at, d), is_dot(d, d, m2)]
        is_vec_difference(source, at, d) && is_dot(d, d, m2) && {
            ||| is_zero_test(m2, true) && is_origin(f)
            ||| is_zero_test(m2, false) && exists|m: S, pull: S, k: S|
                #![trigger is_mag(d, m), is_quotient(strength, m2, pull), is_quotient(pull, m, k)]
                is_mag(d, m) && is_quotient(strength, m2, pull) && is_quotient(pull, m, k)
                    && is_scaled(d, k, f)
        }
}

impl<S: Scalar> Force<S> for InverseSquareForce<S> {
    fn get_force(&self, rope_pos: Vec2<S>) -> (f: Vec2<S>)
        ensures
            is_inverse_square(self.strength, self.pos, rope_pos, f),
    {
        let delta = self.pos.sub(rope_pos);
        let d2 = delta.mag2();
        if d2.is_zero() {
            let f = Vec2::default();
            return f;
        }
        let d = delta.mag();
        let mag = self.strength.div(d2);
        let k = mag.div(d);
        let f = delta.mult(k);
        proof {
            assert(is_mag(delta, d) && is_quotient(self.strength, d2, mag) && is_quotient(
                mag,
                d,
                k,
            ));
        }
        f
    }
}

/// Any of the forces that are known here, so that one world can have forces
/// of both kinds.
pub enum AnyForce<S: Scalar> {
    Constant(ConstantForce<S>),
    InverseSquare(InverseSquareForce<S>),
}

impl<S: Scalar> Force<S> for AnyForce<S> {
    fn get_force(&self, rope_node_pos: Vec2<S>) -> (f: Vec2<S>)
        ensures
            match *self {
                AnyForce::Constant(constant) => f == constant.force,
                AnyForce::InverseSquare(source) => is_inverse_square(
                    source.strength,
                    source.pos,
                    rope_node_pos,
                    f,
                ),
            },
    {
        match self {
            AnyForce::Constant(constant) => constant.get_force(rope_node_pos),
            AnyForce::InverseSquare(source) => source.get_force(rope_node_pos),
        }
    }
}

/// `v` is a result of adding to `start` what each of the first `n` forces
/// of `forces` gives at `pos`, one after the other.
pub open spec fn is_pushed<S: Scalar, F: Force<S>>(
    forces: Seq<F>,
    pos: Vec2<S>,
    start: Vec2<S>,
    n: int,
    v: Vec2<S>,
) -> bool
    decreases n,
{
    if n <= 0 {
        v == start
    } else {
        exists|before: Vec2<S>, f: Vec2<S>|
            #![trigger is_vec_sum(before, f, v)]
            is_pushed(forces, pos, start, n - 1, before) && is_force(forces[n - 1], pos, f)
                && is_vec_sum(before, f, v)
    }
}

/// `after` is a result of one step of the free node `before` under the
/// forces `forces`: its velocity is what it moved by in the step before,
/// times 98/100, plus what every force gives where the node is; the node
/// remembers where it is and moves by its velocity.
pub open spec fn is_integrated<S: Scalar, F: Force<S>>(
    before: RopeNode<S>,
    forces: Seq<F>,
    after: RopeNode<S>,
) -> bool {
    &&& after.node_type == before.node_type
    &&& after.prev_pos == before.pos
    &&& exists|moved: Vec2<S>, friction: S, damped: Vec2<S>, vel: Vec2<S>|
        #![trigger is_scaled(moved, friction, damped), is_vec_sum(before.pos, vel, after.pos)]
        is_vec_difference(before.pos, before.prev_pos, moved) && is_ratio(98, 100, friction)
            && is_scaled(moved, friction, damped) && is_pushed(
            forces,
            before.pos,
            damped,
            forces.len() as int,
            vel,
        ) && is_vec_sum(before.pos, vel, after.pos)
}

impl<S: Scalar> RopeNode<S> {
    /// A free node at rest at `pos`.
    pub fn new(pos: Vec2<S>) -> (node: Self)
        ensures
            node.node_type == NodeType::Free,
            node.pos == pos,
            node.prev_pos == pos,
    {
        Self { node_type: NodeType::Free, pos, prev_pos: pos }
    }

    /// One step of the node under `forces`. A fixed node stays as it is.
    /// The time that has passed plays no part in the step.
    pub fn tick<F: Force<S>>(&mut self, forces: &Vec<F>, dt_norm: S)
        ensures
            old(self).node_type == NodeType::Fixed ==> *final(self) == *old(self),
            old(self).node_type == NodeType::Free ==> is_integrated(
                *old(self),
                forces@,
                *final(self),
            ),
    {
        if self.node_type == NodeType::Fixed {
            return ;
        }
        let moved = self.pos.sub(self.prev_pos);

        let friction = S::from_ratio(98, 100);
        let damped = moved.mult(friction);
        let mut vel = damped;

        let mut i: usize = 0;
        while i < forces.len()
            invariant
                i <= forces.len(),
                *self == *old(self),
                is_pushed(forces@, self.pos, damped, i as int, vel),
            decreases forces.len() - i,
        {
            let force = &forces[i];
            let f = force.get_force(self.pos);
            let pushed = vel.add(f);
            vel = pushed;
            i += 1;
        }

        self.prev_pos = self.pos;
        self.pos = self.pos.add(vel);
        assert(is_scaled(moved, friction, damped) && is_vec_sum(old(self).pos, vel, self.pos));
    }
}

/// `c` is a result of the point half way from `a` to `b`:
/// `a + (b - a) * (1/2)`.
pub open spec fn is_centre<S: Scalar>(a: Vec2<S>, b: Vec2<S>, c: Vec2<S>) -> bool {
    exists|d: Vec2<S>, half: S, step: Vec2<S>|
        #![trigger is_scaled(d, half, step), is_vec_sum(a, step, c)]
        is_vec_difference(b, a, d) && is_ratio(1, 2, half) && is_scaled(d, half, step)
            && is_vec_sum(a, step, c)
}

/// `h` is a result of half the length `length`: `length / 2`.
pub open spec fn is_half<S: Scalar>(length: S, h: S) -> bool {
    exists|two: S| #[trigger] is_ratio(2, 1, two) && is_quotient(length, two, h)
}

/// `after` is `before` pulled by a rope with its middle at `centre` and the
/// half length `half`: a fixed node stays as it is; a free node is put at
/// the distance `half` from `centre`, towards where it was.
pub open spec fn is_pulled<S: Scalar>(
    before: RopeNode<S>,
    centre: Vec2<S>,
    half: S,
    after: RopeNode<S>,
) -> bool {
    if before.node_type == NodeType::Fixed {
        after == before
    } else {
        &&& after.node_type == before.node_type
        &&& after.prev_pos == before.prev_pos
        &&& is_projection(centre, before.pos, half, after.pos)
    }
}

/// Whether the rope `rope` leaves the nodes `nodes` alone: it is broken, or
/// both of its nodes are fixed.
pub open spec fn is_slack<S: Scalar>(nodes: Seq<RopeNode<S>>, rope: Rope<S>) -> bool {
    rope.broken || (nodes[rope.from as int].node_type == NodeType::Fixed
        && nodes[rope.to as int].node_type == NodeType::Fixed)
}

/// `after` is a result of the rope `rope` pulling once on the nodes
/// `before`: a slack rope changes nothing; another pulls each of its two
/// nodes towards the point half way between them, and changes no other node.
pub open spec fn is_relaxed<S: Scalar>(
    before: Seq<RopeNode<S>>,
    rope: Rope<S>,
    after: Seq<RopeNode<S>>,
) -> bool {
    if is_slack(before, rope) {
        after == before
    } else {
        &&& after.len() == before.len()
        &&& forall|i: int|
            0 <= i < before.len() && i != rope.from && i != rope.to ==> #[trigger] after[i]
                == before[i]
        &&& exists|centre: Vec2<S>, half: S|
            #![trigger is_pulled(before[rope.from as int], centre, half, after[rope.from as int])]
            {
                &&& is_centre(before[rope.from as int].pos, before[rope.to as int].pos, centre)
                &&& is_half(rope.length, half)
                &&& is_pulled(before[rope.from as int], centre, half, after[rope.from as int])
                &&& is_pulled(before[rope.to as int], centre, half, after[rope.to as int])
            }
    }
}

/// One pull of a whole rope with two free ends puts each end at half the
/// rope's length from the point half way between the two, towards where the
/// end was, and changes nothing else: no other node, and of the two ends
/// neither the kind nor where it was a step ago.
pub proof fn lemma_pull_of_free_ends<S: Scalar>(
    before: Seq<RopeNode<S>>,
    rope: Rope<S>,
    after: Seq<RopeNode<S>>,
)
    requires
        is_relaxed(before, rope, after),
        !rope.broken,
        rope.from < before.len(),
        rope.to < before.len(),
        before[rope.from as int].node_type == NodeType::Free,
        before[rope.to as int].node_type == NodeType::Free,
    ensures
        after.len() == before.len(),
        forall|i: int|
            0 <= i < before.len() && i != rope.from && i != rope.to ==> #[trigger] after[i]
                == before[i],
        after[rope.from as int].node_type == NodeType::Free,
        after[rope.to as int].node_type == NodeType::Free,
        after[rope.from as int].prev_pos == before[rope.from as int].prev_pos,
        after[rope.to as int].prev_pos == before[rope.to as int].prev_pos,
        exists|centre: Vec2<S>, half: S|
            #![trigger is_centre(before[rope.from as int].pos, before[rope.to as int].pos, centre), is_half(rope.length, half)]
            {
                &&& is_centre(before[rope.from as int].pos, before[rope.to as int].pos, centre)
                &&& is_half(rope.length, half)
                &&& is_projection(
                    centre,
                    before[rope.from as int].pos,
                    half,
                    after[rope.from as int].pos,
                )
                &&& is_projection(centre, before[rope.to as int].pos, half, after[rope.to as int].pos)
            },
{
    let (centre, half) = choose|centre: Vec2<S>, half: S|
        #![trigger is_pulled(before[rope.from as int], centre, half, after[rope.from as int])]
        {
            &&& is_centre(before[rope.from as int].pos, before[rope.to as int].pos, centre)
            &&& is_half(rope.length, half)
            &&& is_pulled(before[rope.from as int], centre, half, after[rope.from as int])
            &&& is_pulled(before[rope.to as int], centre, half, after[rope.to as int])
        };
    assert(is_centre(before[rope.from as int].pos, before[rope.to as int].pos, centre) && is_half(
        rope.length,
        half,
    ));
}

/// The rope `rope` may find one of its free nodes in the middle between its
/// two nodes `nodes`, where it has no way to pull.
pub open spec fn may_jam<S: Scalar>(nodes: Seq<RopeNode<S>>, rope: Rope<S>) -> bool {
    &&& !is_slack(nodes, rope)
    &&& exists|centre: Vec2<S>|
        #![trigger is_centre(nodes[rope.from as int].pos, nodes[rope.to as int].pos, centre)]
        {
            &&& is_centre(nodes[rope.from as int].pos, nodes[rope.to as int].pos, centre)
            &&& (nodes[rope.from as int].node_type == NodeType::Free && may_coincide(
                centre,
                nodes[rope.from as int].pos,
            )) || (nodes[rope.to as int].node_type == NodeType::Free && may_coincide(
                centre,
                nodes[rope.to as int].pos,
            ))
        }
}

/// `after` is a result of the first `k` of the ropes `ropes` pulling once
/// each, in their order, on the nodes `before`.
pub open spec fn is_swept<S: Scalar>(
    before: Seq<RopeNode<S>>,
    ropes: Seq<Rope<S>>,
    k: int,
    after: Seq<RopeNode<S>>,
) -> bool
    decreases k,
{
    if k <= 0 {
        after == before
    } else {
        exists|mid: Seq<RopeNode<S>>|
            #![trigger is_relaxed(mid, ropes[k - 1], after)]
            is_swept(before, ropes, k - 1, mid) && is_relaxed(mid, ropes[k - 1], after)
    }
}

/// `after` is a result of `passes` passes over the ropes `ropes`, each rope
/// pulling once in each pass, on the nodes `before`.
pub open spec fn is_settled<S: Scalar>(
    before: Seq<RopeNode<S>>,
    ropes: Seq<Rope<S>>,
    passes: int,
    after: Seq<RopeNode<S>>,
) -> bool
    decreases passes,
{
    if passes <= 0 {
        after == before
    } else {
        exists|mid: Seq<RopeNode<S>>|
            #![trigger is_swept(mid, ropes, ropes.len() as int, after)]
            is_settled(before, ropes, passes - 1, mid) && is_swept(
                mid,
                ropes,
                ropes.len() as int,
                after,
            )
    }
}

/// `after` is a result of one step of every node of `before` under the
/// forces `forces`: a fixed node stays as it is, a free node moves.
pub open spec fn is_moved<S: Scalar, F: Force<S>>(
    before: Seq<RopeNode<S>>,
    forces: Seq<F>,
    after: Seq<RopeNode<S>>,
) -> bool {
    &&& after.len() == before.len()
    &&& forall|i: int|
        0 <= i < before.len() ==> if before[i].node_type == NodeType::Fixed {
            #[trigger] after[i] == before[i]
        } else {
            is_integrated(before[i], forces, after[i])
        }
}

/// The number of passes over the ropes in one step of a world.
pub const SIM_ITERS: usize = 8;

/// A rope found one of its free nodes in the middle between its two nodes,
/// and had no way to pull it.
#[derive(Debug, Copy, Clone, PartialEq, Eq, Structural)]
pub struct Degenerate {
    /// The index of the rope.
    pub rope: usize,
}

/// The nodes, the ropes and the forces of one simulation. A node and a
/// rope keep the index that they were given when they were made.
pub struct World<S: Scalar, F: Force<S>> {
    pub nodes: Vec<RopeNode<S>>,
    pub ropes: Vec<Rope<S>>,
    pub colliders: Vec<Collider>,
    pub forces: Vec<F>,
}

impl<S: Scalar, F: Force<S>> Default for World<S, F> {
    /// The world without nodes, ropes or forces.
    fn default() -> (world: Self)
        ensures
            world.wf(),
            world.nodes@.len() == 0,
            world.ropes@.len() == 0,
            world.colliders@.len() == 0,
            world.forces@.len() == 0,
    {
        World { nodes: Vec::new(), ropes: Vec::new(), colliders: Vec::new(), forces: Vec::new() }
    }
}

/// Whether the rope `rope` is as long as its two nodes among `nodes` are
/// apart: its length is a result of the distance between them.
pub open spec fn is_dist_between<S: Scalar>(nodes: Seq<RopeNode<S>>, rope: Rope<S>) -> bool {
    is_dist(nodes[rope.from as int].pos, nodes[rope.to as int].pos, rope.length)
}

/// Whether every rope of `ropes` joins two different nodes among `count`.
pub open spec fn ropes_fit<S: Scalar>(ropes: Seq<Rope<S>>, count: int) -> bool {
    forall|i: int|
        0 <= i < ropes.len() ==> {
            &&& (#[trigger] ropes[i]).from < count
            &&& ropes[i].to < count
            &&& ropes[i].from != ropes[i].to
        }
}

impl<S: Scalar, F: Force<S>> World<S, F> {
    /// What holds of a world in order: every rope joins two different
    /// nodes of the world.
    pub open spec fn wf(&self) -> bool {
        ropes_fit(self.ropes@, self.nodes@.len() as int)
    }

    /// Whether no rope of the world pulls: each is broken or joins two
    /// fixed nodes.
    pub open spec fn inert(&self) -> bool {
        forall|i: int| 0 <= i < self.ropes@.len() ==> is_slack(self.nodes@, #[trigger] self.ropes@[i])
    }

    /// What every step keeps, however it ends: the ropes, the forces, the
    /// number of nodes and the kind of each; every fixed node as it is; and
    /// of every free node, as where it was, where it stood before the step.
    pub open spec fn stepped_from(&self, old: &Self) -> bool {
        &&& self.wf()
        &&& self.ropes@ == old.ropes@
        &&& self.forces@ == old.forces@
        &&& self.colliders@ == old.colliders@
        &&& self.nodes@.len() == old.nodes@.len()
        &&& forall|i: int|
            0 <= i < old.nodes@.len() ==> (#[trigger] self.nodes@[i]).node_type
                == old.nodes@[i].node_type
        &&& forall|i: int|
            0 <= i < old.nodes@.len() && old.nodes@[i].node_type == NodeType::Fixed
                ==> #[trigger] self.nodes@[i] == old.nodes@[i]
        &&& forall|i: int|
            0 <= i < old.nodes@.len() && old.nodes@[i].node_type == NodeType::Free ==> (
            #[trigger] self.nodes@[i]).prev_pos == old.nodes@[i].pos
    }

    /// Adds a free node at rest at `pos`, and gives its index.
    pub fn add_node(&mut self, pos: Vec2<S>) -> (id: usize)
        requires
            old(self).wf(),
        ensures
            final(self).wf(),
            id == old(self).nodes@.len(),
            final(self).nodes@ == old(self).nodes@.push(
                RopeNode { node_type: NodeType::Free, pos, prev_pos: pos },
            ),
            final(self).ropes@ == old(self).ropes@,
            final(self).forces@ == old(self).forces@,
            final(self).colliders@ == old(self).colliders@,
    {
        self.nodes.push(RopeNode::new(pos));
        self.nodes.len() - 1
    }

    /// Adds a rope between the nodes `from` and `to`, and gives its index.
    /// The rope is whole, and as long as its two nodes are apart now.
    pub fn add_rope(&mut self, from: usize, to: usize) -> (id: usize)
        requires
            old(self).wf(),
            from < old(self).nodes@.len(),
            to < old(self).nodes@.len(),
            from != to,
        ensures
            final(self).wf(),
            id == old(self).ropes@.len(),
            final(self).ropes@.len() == old(self).ropes@.len() + 1,
            final(self).ropes@.drop_last() == old(self).ropes@,
            final(self).ropes@.last().from == from,
            final(self).ropes@.last().to == to,
            !final(self).ropes@.last().broken,
            is_dist(
                old(self).nodes@[from as int].pos,
                old(self).nodes@[to as int].pos,
                final(self).ropes@.last().length,
            ),
            final(self).nodes@ == old(self).nodes@,
            final(self).forces@ == old(self).forces@,
            final(self).colliders@ == old(self).colliders@,
    {
        let rope = Rope::new(from, to, self);
        self.ropes.push(rope);
        self.ropes.len() - 1
    }

    /// Adds `force` to the forces that act on every free node.
    pub fn add_force(&mut self, force: F)
        ensures
            final(self).forces@ == old(self).forces@.push(force),
            final(self).nodes@ == old(self).nodes@,
            final(self).ropes@ == old(self).ropes@,
            final(self).colliders@ == old(self).colliders@,
    {
        self.forces.push(force);
    }

    /// The node with the index `id`.
    pub fn get_node(&self, id: usize) -> (node: &RopeNode<S>)
        requires
            id < self.nodes@.len(),
        ensures
            *node == self.nodes@[id as int],
    {
        &self.nodes[id]
    }

    /// The node with the index `id`, to change it.
    pub fn get_node_mut(&mut self, id: usize) -> (node: &mut RopeNode<S>)
        requires
            id < old(self).nodes@.len(),
        ensures
            *node == old(self).nodes@[id as int],
            final(self).nodes@ == old(self).nodes@.update(id as int, *final(node)),
            final(self).ropes@ == old(self).ropes@,
            final(self).forces@ == old(self).forces@,
            final(self).colliders@ == old(self).colliders@,
    {
        &mut self.nodes[id]
    }

    /// The rope with the index `id`.
    pub fn get_rope(&self, id: usize) -> (rope: &Rope<S>)
        requires
            id < self.ropes@.len(),
        ensures
            *rope == self.ropes@[id as int],
    {
        &self.ropes[id]
    }

    /// The rope with the index `id`, to change it.
    pub fn get_rope_mut(&mut self, id: usize) -> (rope: &mut Rope<S>)
        requires
            id < old(self).ropes@.len(),
        ensures
            *rope == old(self).ropes@[id as int],
            final(self).ropes@ == old(self).ropes@.update(id as int, *final(rope)),
            final(self).nodes@ == old(self).nodes@,
            final(self).forces@ == old(self).forces@,
            final(self).colliders@ == old(self).colliders@,
    {
        &mut self.ropes[id]
    }

    /// One pull of the rope `rope_id`: a slack rope changes nothing;
    /// another puts each of its free nodes at half its length from the
    /// point half way between its two nodes, towards where the node was.
    /// Where a free node is found at that point, the rope has no way to
    /// pull, and nothing changes.
    pub fn tick_rope(&mut self, rope_id: usize) -> (result: Result<(), Degenerate>)
        requires
            old(self).wf(),
            rope_id < old(self).ropes@.len(),
        ensures
            final(self).wf(),
            final(self).ropes@ == old(self).ropes@,
            final(self).forces@ == old(self).forces@,
            final(self).colliders@ == old(self).colliders@,
            only_pulled(old(self).nodes@, final(self).nodes@),
            is_slack(old(self).nodes@, old(self).ropes@[rope_id as int]) ==> result is Ok,
            match result {
                Ok(_) => is_relaxed(
                    old(self).nodes@,
                    old(self).ropes@[rope_id as int],
                    final(self).nodes@,
                ),
                Err(jam) => {
                    &&& jam.rope == rope_id
                    &&& final(self).nodes@ == old(self).nodes@
                    &&& may_jam(old(self).nodes@, old(self).ropes@[rope_id as int])
                },
            },
    {
        let rope = self.ropes[rope_id];

        if rope.broken {
            return Ok(());
        }
        let from_0 = self.nodes[rope.from];
        let to_0 = self.nodes[rope.to];
        let half = S::from_ratio(1, 2);
        let apart = to_0.pos.sub(from_0.pos);
        let half_way = apart.mult(half);
        let centre = from_0.pos.add(half_way);
        assert(is_centre(from_0.pos, to_0.pos, centre));

        let two = S::from_ratio(2, 1);
        let half_len = rope.length.div(two);
        assert(is_half(rope.length, half_len)) by {
            assert(is_ratio(2, 1, two));
        }

        match (from_0.node_type, to_0.node_type) {
            (NodeType::Fixed, NodeType::Fixed) => {
                // Nothing to do, both ends fixed
                Ok(())
            },
            (NodeType::Fixed, NodeType::Free) => {
                match centre.project_dist_towards(to_0.pos, half_len) {
                    Some(pos) => {
                        let moved = RopeNode { pos, ..to_0 };
                        self.nodes[rope.to] = moved;
                        assert(is_pulled(
                            from_0,
                            centre,
                            half_len,
                            self.nodes@[rope.from as int],
                        ));
                        Ok(())
                    },
                    None => {
                        Err(Degenerate { rope: rope_id })
                    },
                }
            },
            (NodeType::Free, NodeType::Fixed) => {
                match centre.project_dist_towards(from_0.pos, half_len) {
                    Some(pos) => {
                        let moved = RopeNode { pos, ..from_0 };
                        self.nodes[rope.from] = moved;
                        assert(is_pulled(
                            from_0,
                            centre,
                            half_len,
                            self.nodes@[rope.from as int],
                        ));
                        Ok(())
                    },
                    None => {
                        Err(Degenerate { rope: rope_id })
                    },
                }
            },
            (NodeType::Free, NodeType::Free) => {
                let from_pos = centre.project_dist_towards(from_0.pos, half_len);
                let to_pos = centre.project_dist_towards(to_0.pos, half_len);
                match (from_pos, to_pos) {
                    (Some(from_pos), Some(to_pos)) => {
                        let moved_from = RopeNode { pos: from_pos, ..from_0 };
                        let moved_to = RopeNode { pos: to_pos, ..to_0 };
                        self.nodes[rope.from] = moved_from;
                        self.nodes[rope.to] = moved_to;
                        assert(is_pulled(
                            from_0,
                            centre,
                            half_len,
                            self.nodes@[rope.from as int],
                        ));
                        Ok(())
                    },
                    _ => {
                        Err(Degenerate { rope: rope_id })
                    },
                }
            },
        }
    }

    /// One step of the world. Every free node moves by its velocity: what
    /// it moved by in the step before, times 98/100, plus what the forces
    /// give where it is. Then the ropes pull, one after the other in their
    /// order, and so 8 times over. The time that has passed plays no part.
    ///
    /// The step ends with `Err` at the first rope that finds one of its free
    /// nodes in the middle between its two nodes; the ropes before it have
    /// pulled then, and no rope after it.
    pub fn tick(&mut self, dt_norm: S) -> (result: Result<(), Degenerate>)
        requires
            old(self).wf(),
        ensures
            final(self).stepped_from(old(self)),
            old(self).inert() ==> result is Ok,
            match result {
                Ok(_) => exists|moved: Seq<RopeNode<S>>|
                    #![trigger is_moved(old(self).nodes@, old(self).forces@, moved)]
                    is_moved(old(self).nodes@, old(self).forces@, moved) && is_settled(
                        moved,
                        old(self).ropes@,
                        SIM_ITERS as int,
                        final(self).nodes@,
                    ),
                Err(jam) => jam.rope < old(self).ropes@.len() && exists|
                    moved: Seq<RopeNode<S>>,
                    passes: int,
                    settled: Seq<RopeNode<S>>,
                |
                    #![trigger is_moved(old(self).nodes@, old(self).forces@, moved), is_settled(moved, old(self).ropes@, passes, settled)]
                    {
                        &&& is_moved(old(self).nodes@, old(self).forces@, moved)
                        &&& 0 <= passes < SIM_ITERS
                        &&& is_settled(moved, old(self).ropes@, passes, settled)
                        &&& is_swept(settled, old(self).ropes@, jam.rope as int, final(self).nodes@)
                        &&& may_jam(final(self).nodes@, old(self).ropes@[jam.rope as int])
                    },
            },
    {
        let mut i: usize = 0;
        while i < self.nodes.len()
            invariant
                i <= self.nodes@.len(),
                self.nodes@.len() == old(self).nodes@.len(),
                self.ropes@ == old(self).ropes@,
                self.forces@ == old(self).forces@,
                self.colliders@ == old(self).colliders@,
                forall|k: int| i <= k < self.nodes@.len() ==> self.nodes@[k] == old(self).nodes@[k],
                forall|k: int|
                    0 <= k < i ==> if old(self).nodes@[k].node_type == NodeType::Fixed {
                        #[trigger] self.nodes@[k] == old(self).nodes@[k]
                    } else {
                        is_integrated(old(self).nodes@[k], old(self).forces@, self.nodes@[k])
                    },
            decreases self.nodes@.len() - i,
        {
            let mut node = self.nodes[i];
            node.tick(&self.forces, dt_norm);
            self.nodes[i] = node;
            i += 1;
        }
        let ghost moved = self.nodes@;

        let mut pass: usize = 0;
        while pass < SIM_ITERS
            invariant
                pass <= SIM_ITERS,
                old(self).wf(),
                is_moved(old(self).nodes@, old(self).forces@, moved),
                self.stepped_from(old(self)),
                old(self).inert() ==> self.inert(),
                is_settled(moved, old(self).ropes@, pass as int, self.nodes@),
            decreases SIM_ITERS - pass,
        {
            let ghost settled = self.nodes@;
            let mut rid: usize = 0;
            while rid < self.ropes.len()
                invariant
                    rid <= self.ropes@.len(),
                    pass < SIM_ITERS,
                    old(self).wf(),
                    is_moved(old(self).nodes@, old(self).forces@, moved),
                    self.stepped_from(old(self)),
                    old(self).inert() ==> self.inert(),
                    is_settled(moved, old(self).ropes@, pass as int, settled),
                    is_swept(settled, old(self).ropes@, rid as int, self.nodes@),
                decreases self.ropes@.len() - rid,
            {
                let ghost before = *self;
                match self.tick_rope(rid) {
                    Ok(_) => {},
                    Err(jam) => {
                        return Err(jam);
                    },
                }
                proof {
                    let swept = rid + 1;
                    assert(is_relaxed(before.nodes@, old(self).ropes@[swept - 1], self.nodes@));
                }
                rid += 1;
            }
            pass += 1;
        }
        Ok(())
    }
}

/// Whether the nodes `after` are the nodes `before` but for where the free
/// ones are: each node keeps its kind and where it was, and a fixed node
/// stays as it is.
pub open spec fn only_pulled<S: Scalar>(before: Seq<RopeNode<S>>, after: Seq<RopeNode<S>>) -> bool {
    &&& after.len() == before.len()
    &&& forall|i: int|
        0 <= i < before.len() ==> {
            &&& (#[trigger] after[i]).node_type == before[i].node_type
            &&& after[i].prev_pos == before[i].prev_pos
            &&& before[i].node_type == NodeType::Fixed ==> after[i] == before[i]
        }
}

impl<S: Scalar> Rope<S> {
    /// A whole rope between the nodes `from` and `to` of `world`, as long
    /// as the two are apart.
    pub fn new<F: Force<S>>(from: usize, to: usize, world: &World<S, F>) -> (rope: Self)
        requires
            from < world.nodes@.len(),
            to < world.nodes@.len(),
        ensures
            rope.from == from,
            rope.to == to,
            !rope.broken,
            is_dist(world.nodes@[from as int].pos, world.nodes@[to as int].pos, rope.length),
    {
        let length = world.get_node(from).pos.dist(world.get_node(to).pos);
        Self { from, to, length, broken: false }
    }
}

/// Whether `trace` is a run of steps: each world but the first is what a
/// step made of the world before it.
pub open spec fn is_run<S: Scalar, F: Force<S>>(trace: Seq<World<S, F>>) -> bool {
    forall|k: int|
        0 <= k < trace.len() - 1 ==> (#[trigger] trace[k + 1]).stepped_from(&trace[k])
}

/// Steps, however many, change no rope and move no fixed node: at the end
/// of a run every rope has the two nodes and the length that it had at the
/// start, and every node that was fixed at the start is where it was, and
/// fixed.
pub proof fn lemma_run_keeps<S: Scalar, F: Force<S>>(trace: Seq<World<S, F>>, n: int)
    requires
        is_run(trace),
        0 <= n < trace.len(),
    ensures
        trace[n].ropes@ == trace[0].ropes@,
        trace[n].nodes@.len() == trace[0].nodes@.len(),
        forall|i: int|
            0 <= i < trace[0].nodes@.len() ==> (#[trigger] trace[n].nodes@[i]).node_type
                == trace[0].nodes@[i].node_type,
        forall|i: int|
            0 <= i < trace[0].nodes@.len() && trace[0].nodes@[i].node_type == NodeType::Fixed
                ==> #[trigger] trace[n].nodes@[i] == trace[0].nodes@[i],
    decreases n,
{
    if n > 0 {
        lemma_run_keeps(trace, n - 1);
        assert(trace[(n - 1) + 1].stepped_from(&trace[n - 1]));
    }
}

/// A world in which no rope pulls stays so, step after step: after any run
/// no rope pulls, so that the next step ends well.
pub proof fn lemma_run_stays_inert<S: Scalar, F: Force<S>>(trace: Seq<World<S, F>>, n: int)
    requires
        is_run(trace),
        0 <= n < trace.len(),
        trace[0].inert(),
    ensures
        trace[n].inert(),
{
    if n > 0 {
        lemma_run_keeps(trace, n);
        assert(trace[(n - 1) + 1].stepped_from(&trace[n - 1]));
    }
}

} // verus!
