//! The blueprint of a structure: its nodes and ropes before they are placed
//! in a world, with nodes that share a grid corner merged and at most one
//! rope for each pair of nodes.

use crate::dense_grid::{DenseGrid, LocalPoint, I2, COORD_LIMIT};
use std::collections::HashSet;
use vstd::prelude::*;

verus! {

broadcast use vstd::std_specs::hash::group_hash_axioms;

/// The blueprint position of the grid corner `(x, y)`.
pub open spec fn corner_point(x: int, y: int) -> LocalPoint {
    LocalPoint { twice_x: (2 * x) as i64, twice_y: (2 * y) as i64 }
}

/// Whether `rope` joins the nodes `a` and `b`, in either direction.
pub open spec fn joins(rope: (usize, usize, bool), a: usize, b: usize) -> bool {
    (rope.0 == a && rope.1 == b) || (rope.0 == b && rope.1 == a)
}

/// What a blueprint holds: its nodes, each with its position and whether it
/// is pinned to the ground; its ropes, each with the indices of its two
/// nodes and whether it is drawn; and, for each grid corner that has a node,
/// the index of that node.
#[verifier::ext_equal]
pub struct BlueprintModel {
    pub nodes: Seq<(LocalPoint, bool)>,
    pub ropes: Seq<(usize, usize, bool)>,
    pub index: Map<(int, int), usize>,
}

impl BlueprintModel {
    /// The blueprint without nodes or ropes.
    pub open spec fn empty() -> Self {
        BlueprintModel { nodes: Seq::empty(), ropes: Seq::empty(), index: Map::empty() }
    }

    /// Whether a rope joins `a` and `b` already.
    pub open spec fn has_rope(self, a: usize, b: usize) -> bool {
        exists|i: int| 0 <= i < self.ropes.len() && joins(#[trigger] self.ropes[i], a, b)
    }

    /// A new node at `pos`, pinned if it lies on the ground line, whatever
    /// nodes there are already.
    pub open spec fn add_off_grid(self, pos: LocalPoint) -> Self {
        BlueprintModel { nodes: self.nodes.push((pos, pos.twice_y == 0)), ..self }
    }

    /// A node at the grid corner `(x, y)`, unless the corner has one.
    pub open spec fn try_add_node(self, x: int, y: int) -> Self {
        if self.index.contains_key((x, y)) {
            self
        } else {
            BlueprintModel {
                nodes: self.nodes.push((corner_point(x, y), y == 0)),
                ropes: self.ropes,
                index: self.index.insert((x, y), self.nodes.len() as usize),
            }
        }
    }

    /// A rope between the nodes `from` and `to`, unless they are one node or
    /// a rope joins them already.
    pub open spec fn try_add_rope_ids(self, from: usize, to: usize, visible: bool) -> Self {
        if from == to || self.has_rope(from, to) {
            self
        } else {
            BlueprintModel { ropes: self.ropes.push((from, to, visible)), ..self }
        }
    }

    /// A rope from the node at the corner `(fx, fy)` to the node `to`, if
    /// that corner has a node.
    pub open spec fn try_add_rope_pos_id(self, fx: int, fy: int, to: usize, visible: bool) -> Self {
        if self.index.contains_key((fx, fy)) {
            self.try_add_rope_ids(self.index[(fx, fy)], to, visible)
        } else {
            self
        }
    }

    /// A rope between the nodes at the corners `(fx, fy)` and `(tx, ty)`, if
    /// both corners have a node.
    pub open spec fn try_add_rope(self, fx: int, fy: int, tx: int, ty: int, visible: bool) -> Self {
        if self.index.contains_key((tx, ty)) {
            self.try_add_rope_pos_id(fx, fy, self.index[(tx, ty)], visible)
        } else {
            self
        }
    }

    /// What holds of every blueprint: a corner's node exists, stands at that
    /// corner and is pinned exactly on the ground line; no rope joins a node
    /// to itself; and no two ropes join the same pair.
    pub open spec fn wf(self) -> bool {
        &&& forall|x: int, y: int| #[trigger]
            self.index.contains_key((x, y)) ==> {
                &&& self.index[(x, y)] < self.nodes.len()
                &&& self.nodes[self.index[(x, y)] as int] == (corner_point(x, y), y == 0)
            }
        &&& forall|i: int|
            0 <= i < self.ropes.len() ==> (#[trigger] self.ropes[i]).0 != self.ropes[i].1
        &&& forall|i: int, j: int|
            0 <= i < j < self.ropes.len() ==> !joins(
                #[trigger] self.ropes[i],
                (#[trigger] self.ropes[j]).0,
                self.ropes[j].1,
            )
    }
}

impl BlueprintModel {
    /// Whether every rope joins nodes that the blueprint has. A rope that
    /// was asked for by the indices of its nodes may join any two indices;
    /// a rope that was asked for by grid corners joins nodes that exist.
    pub open spec fn ropes_fit(self) -> bool {
        forall|i: int|
            0 <= i < self.ropes.len() ==> (#[trigger] self.ropes[i]).0 < self.nodes.len()
                && self.ropes[i].1 < self.nodes.len()
    }

    /// A node off the grid keeps a blueprint in order.
    pub proof fn lemma_add_off_grid_wf(self, pos: LocalPoint)
        requires
            self.wf(),
        ensures
            self.add_off_grid(pos).wf(),
    {
    }

    /// A rope between any two indices keeps a blueprint in order.
    pub proof fn lemma_try_add_rope_ids_wf(self, from: usize, to: usize, visible: bool)
        requires
            self.wf(),
        ensures
            self.try_add_rope_ids(from, to, visible).wf(),
    {
    }

    /// Asking for a rope twice gives one rope: once a rope between `a` and
    /// `b` was asked for, asking again, in either direction and drawn or
    /// not, changes nothing; and exactly one rope joins `a` and `b` then,
    /// unless they are one node, which no rope joins.
    pub proof fn lemma_rope_added_once(self, a: usize, b: usize, first: bool, second: bool)
        requires
            self.wf(),
        ensures
            ({
                let once = self.try_add_rope_ids(a, b, first);
                &&& once.try_add_rope_ids(a, b, second) == once
                &&& once.try_add_rope_ids(b, a, second) == once
                &&& a == b ==> once == self && !once.has_rope(a, b)
                &&& a != b ==> exists|i: int|
                    {
                        &&& 0 <= i < once.ropes.len()
                        &&& joins(#[trigger] once.ropes[i], a, b)
                        &&& forall|j: int|
                            0 <= j < once.ropes.len() && joins(#[trigger] once.ropes[j], a, b) ==> j
                                == i
                    }
            }),
    {
        let once = self.try_add_rope_ids(a, b, first);
        if a != b {
            if self.has_rope(a, b) {
                let i = choose|i: int| 0 <= i < self.ropes.len() && joins(#[trigger] self.ropes[i], a, b);
                assert forall|j: int|
                    0 <= j < once.ropes.len() && joins(#[trigger] once.ropes[j], a, b) implies j
                    == i by {}
                assert(joins(once.ropes[i], a, b));
            } else {
                let i = self.ropes.len() as int;
                assert(joins(once.ropes[i], a, b));
            }
        }
    }
}

/// The key under which the pair of nodes `a` and `b` is remembered: the
/// smaller index in the upper half of the key, the larger in the lower.
pub open spec fn pair_key(a: usize, b: usize) -> u128 {
    if a <= b {
        (a as int * 0x1_0000_0000_0000_0000 + b as int) as u128
    } else {
        (b as int * 0x1_0000_0000_0000_0000 + a as int) as u128
    }
}

/// Two pairs have one key exactly when they are the same pair, in either
/// direction.
pub proof fn lemma_pair_key_injective(a: usize, b: usize, c: usize, d: usize)
    ensures
        pair_key(a, b) == pair_key(c, d) <==> (a == c && b == d) || (a == d && b == c),
{
}

/// A blueprint under construction, and once finished.
pub struct Blueprint {
    nodes: Vec<(LocalPoint, bool)>,
    ropes: Vec<(usize, usize, bool)>,
    node_grid: DenseGrid<Option<usize>>,
    rope_hashset: HashSet<u128>,
}

impl View for Blueprint {
    type V = BlueprintModel;

    closed spec fn view(&self) -> BlueprintModel {
        BlueprintModel {
            nodes: self.nodes@,
            ropes: self.ropes@,
            index: Map::new(
                |c: (int, int)|
                    self.node_grid.contains(c.0, c.1) && self.node_grid.cell(c.0, c.1) is Some,
                |c: (int, int)| self.node_grid.cell(c.0, c.1)->0,
            ),
        }
    }
}

impl Default for Blueprint {
    /// The blueprint without nodes or ropes.
    fn default() -> (b: Self)
        ensures
            b.wf(),
            b@ == BlueprintModel::empty(),
    {
        Blueprint {
            nodes: Vec::new(),
            ropes: Vec::new(),
            node_grid: DenseGrid::default(),
            rope_hashset: HashSet::new(),
        }
    }
}

impl Blueprint {
    /// What ties the stored collections together: the grid of node indices
    /// is in order, and the remembered keys are those of the ropes.
    pub closed spec fn inv(&self) -> bool {
        &&& self.node_grid.wf()
        &&& forall|k: u128|
            self.rope_hashset@.contains(k) <==> exists|i: int|
                0 <= i < self.ropes.len() && #[trigger] pair_key(self.ropes[i].0, self.ropes[i].1)
                    == k
    }

    /// What holds of every blueprint.
    pub open spec fn wf(&self) -> bool {
        self.inv() && self@.wf()
    }

    /// The nodes: position, and whether the node is pinned to the ground.
    pub fn nodes(&self) -> (nodes: &Vec<(LocalPoint, bool)>)
        ensures
            nodes@ == self@.nodes,
    {
        &self.nodes
    }

    /// The ropes: the indices of the two nodes, and whether the rope is
    /// drawn.
    pub fn ropes(&self) -> (ropes: &Vec<(usize, usize, bool)>)
        ensures
            ropes@ == self@.ropes,
    {
        &self.ropes
    }

    /// Whether every rope joins nodes that the blueprint has.
    pub fn ropes_fit(&self) -> (ok: bool)
        ensures
            ok == self@.ropes_fit(),
    {
        let mut i: usize = 0;
        while i < self.ropes.len()
            invariant
                i <= self.ropes@.len(),
                forall|k: int|
                    0 <= k < i ==> (#[trigger] self.ropes@[k]).0 < self.nodes@.len()
                        && self.ropes@[k].1 < self.nodes@.len(),
            decreases self.ropes@.len() - i,
        {
            let rope = self.ropes[i];
            if rope.0 >= self.nodes.len() || rope.1 >= self.nodes.len() {
                assert(!(self@.ropes[i as int].0 < self@.nodes.len() && self@.ropes[i as int].1
                    < self@.nodes.len()));
                return false;
            }
            i += 1;
        }
        true
    }

    /// Adds a node at `pos` that shares no grid corner, and gives its index.
    pub fn add_off_grid(&mut self, pos: LocalPoint) -> (id: usize)
        requires
            old(self).wf(),
        ensures
            final(self).wf(),
            final(self)@ == old(self)@.add_off_grid(pos),
            id == old(self)@.nodes.len(),
            old(self)@.ropes_fit() ==> final(self)@.ropes_fit(),
    {
        let id = self.nodes.len();
        self.nodes.push((pos, pos.twice_y == 0));
        proof {
            assert(self@.index =~= old(self)@.index);
            old(self)@.lemma_add_off_grid_wf(pos);
        }
        id
    }

    /// Adds a node at the grid corner `pos`, unless the corner has one. The
    /// node is pinned if the corner lies on the ground line.
    pub fn try_add_node(&mut self, pos: I2)
        requires
            old(self).wf(),
            -COORD_LIMIT < pos.x < COORD_LIMIT,
            -COORD_LIMIT < pos.y < COORD_LIMIT,
        ensures
            final(self).wf(),
            final(self)@ == old(self)@.try_add_node(pos.x as int, pos.y as int),
            old(self)@.ropes_fit() ==> final(self)@.ropes_fit(),
    {
        let grid_id = self.node_grid.get_mut(pos);
        if grid_id.is_none() {
            let grounded = pos.y == 0;
            let id = self.nodes.len();
            self.nodes.push((pos.to_v2(), grounded));
            *grid_id = Some(id);
        }
        proof {
            let before = old(self)@;
            let after = before.try_add_node(pos.x as int, pos.y as int);
            assert(self@.index =~= after.index);
            if !before.index.contains_key((pos.x as int, pos.y as int)) {
                assert(self.nodes.len() == before.nodes.len() + 1);
            }
        }
    }

    /// Adds a rope between the nodes `from` and `to`, unless they are one
    /// node or a rope joins them already, in either direction; the rope that
    /// came first then keeps its place and whether it is drawn. The two
    /// indices may be any; where they are those of nodes, every rope goes on
    /// joining nodes that the blueprint has.
    pub fn try_add_rope_ids(&mut self, from: usize, to: usize, visible: bool)
        requires
            old(self).wf(),
        ensures
            final(self).wf(),
            final(self)@ == old(self)@.try_add_rope_ids(from, to, visible),
            old(self)@.ropes_fit() && from < old(self)@.nodes.len() && to < old(self)@.nodes.len()
                ==> final(self)@.ropes_fit(),
    {
        if from == to {
            return ;
        }
        let smaller = if from < to {
            from
        } else {
            to
        };
        let larger = if from < to {
            to
        } else {
            from
        };
        let key: u128 = (smaller as u128) * 0x1_0000_0000_0000_0000 + (larger as u128);
        assert(key == pair_key(from, to));
        proof {
            assert(old(self).rope_hashset@.contains(key) <==> old(self)@.has_rope(from, to)) by {
                if old(self).rope_hashset@.contains(key) {
                    let i = choose|i: int|
                        0 <= i < self.ropes.len() && #[trigger] pair_key(
                            self.ropes[i].0,
                            self.ropes[i].1,
                        ) == key;
                    lemma_pair_key_injective(self.ropes[i].0, self.ropes[i].1, from, to);
                    assert(joins(self@.ropes[i], from, to));
                }
                if old(self)@.has_rope(from, to) {
                    let i = choose|i: int|
                        0 <= i < self@.ropes.len() && joins(#[trigger] self@.ropes[i], from, to);
                    lemma_pair_key_injective(self.ropes[i].0, self.ropes[i].1, from, to);
                    assert(pair_key(self.ropes[i].0, self.ropes[i].1) == key);
                }
            }
        }
        if self.rope_hashset.insert(key) {
            self.ropes.push((from, to, visible));
            proof {
                assert forall|k: u128|
                    self.rope_hashset@.contains(k) <==> exists|i: int|
                        0 <= i < self.ropes.len() && #[trigger] pair_key(
                            self.ropes[i].0,
                            self.ropes[i].1,
                        ) == k by {
                    let last = self.ropes.len() - 1;
                    if self.rope_hashset@.contains(k) {
                        if k == key {
                            assert(pair_key(self.ropes[last].0, self.ropes[last].1) == k);
                        } else {
                            let i = choose|i: int|
                                0 <= i < old(self).ropes.len() && #[trigger] pair_key(
                                    old(self).ropes[i].0,
                                    old(self).ropes[i].1,
                                ) == k;
                            assert(pair_key(self.ropes[i].0, self.ropes[i].1) == k);
                        }
                    }
                }
            }
        }
        proof {
            old(self)@.lemma_try_add_rope_ids_wf(from, to, visible);
        }
    }

    /// Adds a rope from the node at the grid corner `from` to the node
    /// `to_node_id`, if that corner has a node.
    pub fn try_add_rope_pos_id(&mut self, from: I2, to_node_id: usize, visible: bool)
        requires
            old(self).wf(),
            -COORD_LIMIT < from.x < COORD_LIMIT,
            -COORD_LIMIT < from.y < COORD_LIMIT,
        ensures
            final(self).wf(),
            final(self)@ == old(self)@.try_add_rope_pos_id(
                from.x as int,
                from.y as int,
                to_node_id,
                visible,
            ),
            old(self)@.ropes_fit() && to_node_id < old(self)@.nodes.len()
                ==> final(self)@.ropes_fit(),
    {
        let from_node = self.lookup(from);
        if let Some(from_node_id) = from_node {
            self.try_add_rope_ids(from_node_id, to_node_id, visible);
        }
    }

    /// Adds a rope between the nodes at the grid corners `from` and `to`,
    /// if both corners have a node.
    pub fn try_add_rope(&mut self, from: I2, to: I2, visible: bool)
        requires
            old(self).wf(),
            -COORD_LIMIT < from.x < COORD_LIMIT,
            -COORD_LIMIT < from.y < COORD_LIMIT,
            -COORD_LIMIT < to.x < COORD_LIMIT,
            -COORD_LIMIT < to.y < COORD_LIMIT,
        ensures
            final(self).wf(),
            final(self)@ == old(self)@.try_add_rope(
                from.x as int,
                from.y as int,
                to.x as int,
                to.y as int,
                visible,
            ),
            old(self)@.ropes_fit() ==> final(self)@.ropes_fit(),
    {
        let from_node = self.lookup(from);
        if let Some(from_node_id) = from_node {
            let to_node = self.lookup(to);
            if let Some(to_node_id) = to_node {
                self.try_add_rope_ids(from_node_id, to_node_id, visible);
            }
        }
    }

    /// The index of the node at the grid corner `pos`, if the corner has
    /// one. The blueprint stays as it is.
    fn lookup(&mut self, pos: I2) -> (id: Option<usize>)
        requires
            old(self).wf(),
            -COORD_LIMIT < pos.x < COORD_LIMIT,
            -COORD_LIMIT < pos.y < COORD_LIMIT,
        ensures
            final(self).wf(),
            final(self)@ == old(self)@,
            id is Some <==> old(self)@.index.contains_key((pos.x as int, pos.y as int)),
            id is Some ==> id->0 == old(self)@.index[(pos.x as int, pos.y as int)],
    {
        let id = self.node_grid.get(pos);
        proof {
            assert(self@.index =~= old(self)@.index);
        }
        id
    }
}

} // verus!
