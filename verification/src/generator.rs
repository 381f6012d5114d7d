//! The generator of structures: three archetypes, each built cell by cell
//! from the outcome of a few draws.

use crate::blueprint::{Blueprint, BlueprintModel};
use crate::blueprint_to_world_transform::{is_transformed, BlueprintToWorldTransform};
use crate::dense_grid::{LocalPoint, I2};
use crate::rope::{is_dist_between, Force, NodeType, World};
use crate::scalar::{is_ratio, Scalar, Vec2};
use crate::structure::{
    all_empty, blueprint_of, lemma_cells_total, with_block, CellState, IntermediateStructure,
    CELL_LIMIT,
};
use froggy_rand::FroggyRand;
use vstd::prelude::*;

verus! {

broadcast use lemma_cells_total;

/// The item of `choices` that the generator seeded with `seed` picks for
/// the key `(label, index, archetype)`: what `FroggyRand::choose` returns.
/// The pick is made from the seed and a hash of the key, and from nothing
/// else.
pub uninterp spec fn froggy_choice(
    seed: u64,
    label: Seq<char>,
    index: u8,
    archetype: Seq<char>,
    choices: Seq<i32>,
) -> i32;

/// The item of `choices` that the generator seeded with `seed` picks for the
/// key `(label, index, archetype)`. This is `FroggyRand::choose`, called on
/// `FroggyRand::new(seed)`: it takes the item at an index below the length
/// of `choices` and divides by that length, so `choices` may not be empty.
/// The item is one of `choices`; which one is left to the name above.
#[verifier::external_body]
fn froggy_choose(seed: u64, label: &str, index: u8, archetype: &str, choices: &[i32]) -> (choice:
    i32)
    requires
        choices@.len() > 0,
    ensures
        choice == froggy_choice(seed, label@, index, archetype@, choices@),
        choices@.contains(choice),
{
    *FroggyRand::new(seed).choose((label, index, archetype), choices)
}

/// A number from `min` to `max`, both included, picked by the generator
/// seeded with `seed` for the key `label`. This is
/// `FroggyRand::gen_usize_range`, called on `FroggyRand::new(seed)`: it
/// computes `1 + max - min` and adds to `min` a remainder of the division by
/// it. Which number comes back is not stated: it depends on how wide a
/// `usize` is.
#[verifier::external_body]
fn froggy_usize_range(seed: u64, label: &str, min: usize, max: usize) -> (n: usize)
    requires
        min <= max < usize::MAX,
    ensures
        min <= n <= max,
{
    FroggyRand::new(seed).gen_usize_range(label, min, max)
}

/// The kinds of structure.
#[derive(Debug, Copy, Clone, PartialEq, Eq, Structural)]
pub enum Archetype {
    GothicHouse,
    Industrial,
    Tower,
}

impl Archetype {
    /// The archetype that the number `kind` stands for, where a generator
    /// draws a number to pick one: the gothic house for 0, the industrial
    /// structure for 1, the tower for every other number.
    pub open spec fn spec_of_kind(kind: usize) -> Archetype {
        if kind == 0 {
            Archetype::GothicHouse
        } else if kind == 1 {
            Archetype::Industrial
        } else {
            Archetype::Tower
        }
    }

    /// The archetype that the number `kind` stands for.
    pub fn of_kind(kind: usize) -> (archetype: Archetype)
        ensures
            archetype == Self::spec_of_kind(kind),
    {
        match kind {
            0 => Archetype::GothicHouse,
            1 => Archetype::Industrial,
            _ => Archetype::Tower,
        }
    }
}

/// What was drawn for one roofed tower: the height of its shaft, and
/// whether it gets a roof.
#[derive(Debug, Copy, Clone, PartialEq, Eq, Structural)]
pub struct TowerRoll {
    pub height: u32,
    pub roof: bool,
}

impl TowerRoll {
    /// The heights that a roofed tower can have.
    pub open spec fn valid(self) -> bool {
        1 <= self.height <= 4
    }
}

/// What was drawn for one storey of an industrial structure: the height of
/// its stilts, by how much the structure changes its width above them, and
/// the height of the slab that the stilts carry.
#[derive(Debug, Copy, Clone, PartialEq, Eq, Structural)]
pub struct BlockPlan {
    pub stilt_height: i32,
    pub width_mod: i32,
    pub block_height: i32,
}

impl BlockPlan {
    /// The heights and changes of width that a storey can have.
    pub open spec fn valid(self) -> bool {
        &&& 1 <= self.stilt_height <= 3
        &&& self.width_mod == -2 || self.width_mod == 0 || self.width_mod == 2
        &&& 1 <= self.block_height <= 3
    }
}

/// What was rolled for one storey of an industrial structure: the height of
/// its stilts and the height of its slab.
#[derive(Debug, Copy, Clone, PartialEq, Eq, Structural)]
pub struct BlockRoll {
    pub stilt_height: i32,
    pub block_height: i32,
}

/// The heights and roofs of one structure, rolled before it is generated:
/// the generator takes from here what the archetype that it picks asks for.
pub struct Rolls {
    /// The height of a tower.
    pub tower_height: u32,
    /// The towers of a gothic house, by column, for the columns from -3 to
    /// 3: a table of length 8.
    pub gothic_towers: Vec<TowerRoll>,
    /// The storeys of an industrial structure, from the ground up.
    pub blocks: Vec<BlockRoll>,
    /// The towers on an industrial structure, by column, for the columns
    /// from -5 to 5: a table of length 12.
    pub industrial_towers: Vec<TowerRoll>,
}

impl Rolls {
    /// Whether the rolls are in range and enough for any archetype.
    pub open spec fn valid(&self) -> bool {
        &&& 3 <= self.tower_height <= 6
        &&& covers(self.gothic_towers@, -3, 4)
        &&& self.blocks@.len() >= 3
        &&& forall|i: int|
            0 <= i < 3 ==> 1 <= (#[trigger] self.blocks@[i]).stilt_height <= 3 && 1
                <= self.blocks@[i].block_height <= 3
        &&& covers(self.industrial_towers@, -5, 6)
    }

    /// Whether the rolls are in range and enough for any archetype.
    pub fn in_range(&self) -> (ok: bool)
        ensures
            ok == self.valid(),
    {
        if !(3 <= self.tower_height && self.tower_height <= 6) {
            return false;
        }
        if self.blocks.len() < 3 {
            return false;
        }
        let mut i: usize = 0;
        while i < 3
            invariant
                i <= 3 <= self.blocks@.len(),
                forall|k: int|
                    0 <= k < i ==> 1 <= (#[trigger] self.blocks@[k]).stilt_height <= 3 && 1
                        <= self.blocks@[k].block_height <= 3,
            decreases 3 - i,
        {
            let block = self.blocks[i];
            if !(1 <= block.stilt_height && block.stilt_height <= 3 && 1 <= block.block_height
                && block.block_height <= 3) {
                return false;
            }
            i += 1;
        }
        table_covers(&self.gothic_towers, -3, 4) && table_covers(&self.industrial_towers, -5, 6)
    }

    /// What is drawn for the structure of the archetype `archetype` by a
    /// generator with the seed `seed` and these rolls: the generator picks
    /// the half width of a gothic house; of an industrial structure, the
    /// number of storeys, the first width, and for each storey the change
    /// of width; everything else was rolled.
    pub open spec fn draws(&self, seed: u64, archetype: Archetype) -> Draws {
        match archetype {
            Archetype::Tower => Draws {
                archetype,
                tower_height: self.tower_height,
                half_width: 0,
                block_count: 0,
                width: 0,
                blocks: Seq::empty(),
                towers: Seq::empty(),
            },
            Archetype::GothicHouse => Draws {
                archetype,
                tower_height: 0,
                half_width: picked_half_width(seed) as int,
                block_count: 0,
                width: 0,
                blocks: Seq::empty(),
                towers: self.gothic_towers@,
            },
            Archetype::Industrial => Draws {
                archetype,
                tower_height: 0,
                half_width: 0,
                block_count: picked_block_count(seed) as int,
                width: picked_width(seed) as int,
                blocks: picked_blocks(seed, self.blocks@, picked_block_count(seed) as int),
                towers: self.industrial_towers@,
            },
        }
    }
}

/// The half width that the generator with the seed `seed` picks for a
/// gothic house: 1, 2 or 3.
pub open spec fn picked_half_width(seed: u64) -> i32 {
    froggy_choice(seed, "half_width"@, 0, "gothic"@, seq![1i32, 2i32, 3i32])
}

/// The number of storeys that the generator with the seed `seed` picks for
/// an industrial structure: 2 or 3.
pub open spec fn picked_block_count(seed: u64) -> i32 {
    froggy_choice(seed, "block_count"@, 0, "industrial"@, seq![2i32, 3i32])
}

/// The first width that the generator with the seed `seed` picks for an
/// industrial structure: 3, twice as likely, or 5.
pub open spec fn picked_width(seed: u64) -> i32 {
    froggy_choice(seed, "width"@, 0, "industrial"@, seq![3i32, 3i32, 5i32])
}

/// The change of width that the generator with the seed `seed` picks for
/// the storey `i` of an industrial structure: none, twice as likely, or 2
/// either way.
pub open spec fn picked_width_mod(seed: u64, i: u8) -> i32 {
    froggy_choice(seed, "width_mod"@, i, "industrial"@, seq![-2i32, 0i32, 0i32, 2i32])
}

/// The first `n` storeys of an industrial structure, with the heights
/// `rolled` and the changes of width that the generator with the seed `seed`
/// picks.
pub open spec fn picked_blocks(seed: u64, rolled: Seq<BlockRoll>, n: int) -> Seq<BlockPlan> {
    Seq::new(
        n as nat,
        |i: int|
            BlockPlan {
                stilt_height: rolled[i].stilt_height,
                width_mod: picked_width_mod(seed, i as u8),
                block_height: rolled[i].block_height,
            },
    )
}

/// All that is drawn for one structure: its archetype, and what the
/// archetype asks for. A tower asks for its height; a gothic house for its
/// half width and its towers by column; an industrial structure for the
/// number of its storeys, its first width, the storeys, and its towers by
/// column.
pub struct Draws {
    pub archetype: Archetype,
    pub tower_height: u32,
    pub half_width: int,
    pub block_count: int,
    pub width: int,
    pub blocks: Seq<BlockPlan>,
    pub towers: Seq<TowerRoll>,
}

/// The cells of the structure that comes of the draws `draws`.
pub open spec fn cells_of(draws: Draws) -> Map<(int, int), CellState> {
    match draws.archetype {
        Archetype::Tower => tower_cells(draws.tower_height),
        Archetype::GothicHouse => gothic_cells(draws.half_width, draws.towers),
        Archetype::Industrial => industrial_cells(
            draws.block_count,
            draws.width,
            draws.blocks,
            draws.towers,
        ),
    }
}

/// Whether `blue` is the blueprint that is generated from the draws `draws`.
pub open spec fn generated(draws: Draws, blue: BlueprintModel) -> bool {
    blue == blueprint_of(cells_of(draws))
}

/// Generation is decided by the seed, the archetype and the rolls: two
/// blueprints generated for the same archetype by generators with the same
/// seed, from the same rolls, have the same nodes, at the same positions and
/// pinned alike, and the same ropes, in the same order and drawn alike.
pub proof fn lemma_same_seed_same_blueprint(
    seed: u64,
    archetype: Archetype,
    rolls: Rolls,
    again: Rolls,
    first: BlueprintModel,
    second: BlueprintModel,
)
    requires
        again.tower_height == rolls.tower_height,
        again.gothic_towers@ == rolls.gothic_towers@,
        again.blocks@ == rolls.blocks@,
        again.industrial_towers@ == rolls.industrial_towers@,
        generated(rolls.draws(seed, archetype), first),
        generated(again.draws(seed, archetype), second),
    ensures
        first.nodes == second.nodes,
        first.ropes == second.ropes,
        first == second,
{
}

/// The roll for the column `x` in a table of rolls by column. The table is
/// centred as a grid is: a table of length `n` has the columns from `-n / 2`
/// to `n / 2`, the last excluded.
pub open spec fn roll_of(towers: Seq<TowerRoll>, x: int) -> TowerRoll {
    towers[x + towers.len() / 2]
}

/// Whether a table of rolls by column has valid rolls for the columns from
/// `from` to `to`, the last excluded.
pub open spec fn covers(towers: Seq<TowerRoll>, from: int, to: int) -> bool {
    &&& from < to ==> -(towers.len() / 2) <= from && to <= towers.len() / 2
    &&& forall|x: int| from <= x < to ==> (#[trigger] roll_of(towers, x)).valid()
}

/// Where a table of rolls by column of the length `len` has the column `x`.
fn column_index(len: usize, x: i32) -> (index: usize)
    requires
        -(len / 2) <= x < len / 2,
    ensures
        index == x + len / 2,
{
    let centre = len / 2;
    if x >= 0 {
        centre + x as usize
    } else {
        centre - (-(x as i64)) as usize
    }
}

/// Whether the table `towers` has valid rolls for the columns from `from` to
/// `to`, the last excluded.
pub fn table_covers(towers: &Vec<TowerRoll>, from: i32, to: i32) -> (ok: bool)
    ensures
        ok == covers(towers@, from as int, to as int),
{
    if from >= to {
        return true;
    }
    let centre = towers.len() / 2;
    if !(-(from as i64) <= centre as i64 && to as i64 <= centre as i64) {
        return false;
    }
    let mut x = from;
    while x < to
        invariant
            from <= x <= to,
            centre == towers@.len() / 2,
            -(centre as int) <= from,
            to <= centre,
            forall|k: int| from <= k < x ==> (#[trigger] roll_of(towers@, k)).valid(),
        decreases to - x,
    {
        let roll = towers[column_index(towers.len(), x)];
        if !(1 <= roll.height && roll.height <= 4) {
            assert(!roll_of(towers@, x as int).valid());
            return false;
        }
        x += 1;
    }
    true
}

/// The cells `cells` with a tower on the cell `(x, y)`: a shaft of edge
/// blocks as high as was rolled and, if a roof was rolled, a roof on top.
pub open spec fn with_tower_roof(
    cells: Map<(int, int), CellState>,
    x: int,
    y: int,
    roll: TowerRoll,
) -> Map<(int, int), CellState> {
    let shaft = with_block(cells, x, y, 1, roll.height as int, CellState::EdgeBlock);
    if roll.roof {
        shaft.insert((x, y + roll.height), CellState::Roof)
    } else {
        shaft
    }
}

/// The cells `cells` with a tower on each of the cells from `(from, y)` to
/// `(to - 1, y)`, built from left to right.
pub open spec fn with_tower_roofs(
    cells: Map<(int, int), CellState>,
    towers: Seq<TowerRoll>,
    from: int,
    to: int,
    y: int,
) -> Map<(int, int), CellState>
    decreases to - from,
{
    if to <= from {
        cells
    } else {
        with_tower_roof(
            with_tower_roofs(cells, towers, from, to - 1, y),
            to - 1,
            y,
            roll_of(towers, to - 1),
        )
    }
}

/// The cells of a tower: a shaft of edge blocks over the origin, with a roof.
pub open spec fn tower_cells(height: u32) -> Map<(int, int), CellState> {
    with_block(all_empty(), 0, 0, 1, height as int, CellState::EdgeBlock).insert(
        (0, height as int),
        CellState::Roof,
    )
}

/// The cells of a gothic house: a roofed tower on the ground in each column
/// from `-half_width` to `half_width`.
pub open spec fn gothic_cells(half_width: int, towers: Seq<TowerRoll>) -> Map<
    (int, int),
    CellState,
> {
    with_tower_roofs(all_empty(), towers, -half_width, half_width + 1, 0)
}

/// An industrial structure while its storeys are raised.
pub struct Raising {
    pub cells: Map<(int, int), CellState>,
    pub width: int,
    pub half_width: int,
    pub y: int,
    /// The structure became too narrow to go on, and stays as it is.
    pub stopped: bool,
}

/// Half of a change of width, rounded towards zero.
pub open spec fn half_of(width_mod: int) -> int {
    if width_mod >= 0 {
        width_mod / 2
    } else {
        -((-width_mod) / 2)
    }
}

/// The structure `s` with one more storey: two stilts of scaffolding, one
/// column each, to the left and to the right at the half width; then the
/// change of width; then, unless the width is 1 or less now, which stops the
/// structure, a slab of edge blocks over the whole new width.
pub open spec fn raise_block(s: Raising, b: BlockPlan) -> Raising {
    if s.stopped {
        s
    } else {
        let left = with_block(
            s.cells,
            -s.half_width,
            s.y,
            1,
            b.stilt_height as int,
            CellState::Scaffolding,
        );
        let stilts = with_block(
            left,
            s.half_width,
            s.y,
            1,
            b.stilt_height as int,
            CellState::Scaffolding,
        );
        let y = s.y + b.stilt_height;
        let width = s.width + b.width_mod;
        let half_width = s.half_width + half_of(b.width_mod as int);
        if width <= 1 {
            Raising { cells: stilts, width, half_width, y, stopped: true }
        } else {
            Raising {
                cells: with_block(
                    stilts,
                    -half_width,
                    y,
                    width,
                    b.block_height as int,
                    CellState::EdgeBlock,
                ),
                width,
                half_width,
                y: y + b.block_height,
                stopped: false,
            }
        }
    }
}

/// A structure of the width `width` after the first `n` of the storeys
/// `blocks` were raised from the ground.
pub open spec fn raise_blocks(width: int, blocks: Seq<BlockPlan>, n: int) -> Raising
    decreases n,
{
    if n <= 0 {
        Raising { cells: all_empty(), width, half_width: width / 2, y: 0, stopped: false }
    } else {
        raise_block(raise_blocks(width, blocks, n - 1), blocks[n - 1])
    }
}

/// The cells of an industrial structure: `block_count` storeys and, unless
/// the structure was stopped, a roofed tower on top in each column from
/// `-half_width` to `half_width`, the half width being that of the last
/// storey.
pub open spec fn industrial_cells(
    block_count: int,
    width: int,
    blocks: Seq<BlockPlan>,
    towers: Seq<TowerRoll>,
) -> Map<(int, int), CellState> {
    let raised = raise_blocks(width, blocks, block_count);
    if raised.stopped {
        raised.cells
    } else {
        with_tower_roofs(
            raised.cells,
            towers,
            -raised.half_width,
            raised.half_width + 1,
            raised.y,
        )
    }
}

/// The generator of structures. It holds the seed of its draws.
pub struct Generator {
    seed: u64,
}

impl Generator {
    /// The seed of the generator's draws.
    pub closed spec fn spec_seed(&self) -> u64 {
        self.seed
    }

    /// The generator with the seed `input_seed`.
    pub fn new(input_seed: u8) -> (generator: Self)
        ensures
            generator.spec_seed() == input_seed,
    {
        Generator { seed: input_seed as u64 }
    }

    /// The generator with the seed `seed`, which may be any: a caller that
    /// wants a structure of its own each time draws the seed at random.
    pub fn from_seed(seed: u64) -> (generator: Self)
        ensures
            generator.spec_seed() == seed,
    {
        Generator { seed }
    }

    /// The seed of the generator's draws.
    pub fn seed(&self) -> (seed: u64)
        ensures
            seed == self.spec_seed(),
    {
        self.seed
    }

    /// Puts a tower on the cell `(x, y)`: a shaft of edge blocks as high as
    /// was rolled and, if a roof was rolled, a roof on top.
    pub fn add_tower_roof(structure: &mut IntermediateStructure, x: i32, y: i32, roll: TowerRoll)
        requires
            old(structure).wf(),
            roll.valid(),
            -CELL_LIMIT < x < CELL_LIMIT,
            -CELL_LIMIT < y < CELL_LIMIT - 4,
        ensures
            final(structure).wf(),
            final(structure)@ == with_tower_roof(old(structure)@, x as int, y as int, roll),
    {
        let height = roll.height;
        let ghost start = structure@;
        let mut iy: u32 = 0;
        while iy < height
            invariant
                structure.wf(),
                iy <= height <= 4,
                -CELL_LIMIT < x < CELL_LIMIT,
                -CELL_LIMIT < y < CELL_LIMIT - 4,
                structure@ == with_block(
                    start,
                    x as int,
                    y as int,
                    1,
                    iy as int,
                    CellState::EdgeBlock,
                ),
            decreases height - iy,
        {
            structure.set(I2::new(x, y + iy as i32), CellState::EdgeBlock);
            iy += 1;
        }
        if roll.roof {
            structure.set(I2::new(x, y + height as i32), CellState::Roof);
        }
    }

    /// A tower: a shaft of edge blocks `height` cells high over the origin,
    /// with a roof.
    pub fn gen_tower(height: u32) -> (structure: IntermediateStructure)
        requires
            3 <= height <= 6,
        ensures
            structure.wf(),
            structure@ == tower_cells(height),
    {
        let mut structure = IntermediateStructure::default();
        let mut y: u32 = 0;
        while y < height
            invariant
                structure.wf(),
                y <= height <= 6,
                structure@ == with_block(all_empty(), 0, 0, 1, y as int, CellState::EdgeBlock),
            decreases height - y,
        {
            structure.set(I2::new(0, y as i32), CellState::EdgeBlock);
            y += 1;
        }
        structure.set(I2::new(0, height as i32), CellState::Roof);
        structure
    }

    /// Puts a tower on each of the cells from `(from, y)` to `(to - 1, y)`,
    /// from left to right, each as the table `towers` has it for its column.
    fn add_tower_roofs(
        structure: &mut IntermediateStructure,
        towers: &Vec<TowerRoll>,
        from: i32,
        to: i32,
        y: i32,
    )
        requires
            old(structure).wf(),
            covers(towers@, from as int, to as int),
            -CELL_LIMIT < from,
            to <= CELL_LIMIT,
            -CELL_LIMIT < y < CELL_LIMIT - 4,
        ensures
            final(structure).wf(),
            final(structure)@ == with_tower_roofs(
                old(structure)@,
                towers@,
                from as int,
                to as int,
                y as int,
            ),
    {
        let ghost start = structure@;
        let mut x = from;
        while x < to
            invariant
                structure.wf(),
                covers(towers@, from as int, to as int),
                from <= x,
                from < to ==> x <= to,
                from >= to ==> x == from,
                -CELL_LIMIT < from,
                to <= CELL_LIMIT,
                -CELL_LIMIT < y < CELL_LIMIT - 4,
                structure@ == with_tower_roofs(start, towers@, from as int, x as int, y as int),
            decreases to - x,
        {
            assert(roll_of(towers@, x as int).valid());
            let roll = towers[column_index(towers.len(), x)];
            Self::add_tower_roof(structure, x, y, roll);
            x += 1;
        }
    }

    /// A gothic house: a roofed tower on the ground in each column from
    /// `-half_width` to `half_width`.
    pub fn gen_gothic_house(half_width: i32, towers: &Vec<TowerRoll>) -> (structure:
        IntermediateStructure)
        requires
            1 <= half_width <= 3,
            covers(towers@, -half_width, half_width + 1),
        ensures
            structure.wf(),
            structure@ == gothic_cells(half_width as int, towers@),
    {
        let mut structure = IntermediateStructure::default();
        Self::add_tower_roofs(&mut structure, towers, -half_width, half_width + 1, 0);
        structure
    }

    /// An industrial structure: `block_count` storeys, each made of two
    /// stilts of scaffolding and, after the structure has changed its width,
    /// a slab of edge blocks on them; then a roofed tower on top in each
    /// column. A structure that becomes 1 wide or less stops there, with
    /// the stilts of that storey on top.
    pub fn gen_industrial(
        block_count: i32,
        width: i32,
        blocks: &Vec<BlockPlan>,
        towers: &Vec<TowerRoll>,
    ) -> (structure: IntermediateStructure)
        requires
            block_count == 2 || block_count == 3,
            width == 3 || width == 5,
            blocks@.len() >= block_count,
            forall|i: int| 0 <= i < block_count ==> (#[trigger] blocks@[i]).valid(),
            covers(towers@, -5, 6),
        ensures
            structure.wf(),
            structure@ == industrial_cells(block_count as int, width as int, blocks@, towers@),
    {
        let mut structure = IntermediateStructure::default();

        let ghost first_width = width as int;
        let mut span = width;
        let mut half_width = span / 2;

        let mut y: i32 = 0;

        let mut i: i32 = 0;
        while i < block_count
            invariant
                structure.wf(),
                0 <= i <= block_count <= 3,
                first_width == width,
                blocks@.len() >= block_count,
                forall|k: int| 0 <= k < block_count ==> (#[trigger] blocks@[k]).valid(),
                raise_blocks(first_width, blocks@, i as int) == (Raising {
                    cells: structure@,
                    width: span as int,
                    half_width: half_width as int,
                    y: y as int,
                    stopped: false,
                }),
                span == 2 * half_width + 1,
                3 <= span <= 5 + 2 * i,
                0 <= y <= 6 * i,
            decreases block_count - i,
        {
            let ghost raised = raise_blocks(first_width, blocks@, i as int);
            let block = blocks[i as usize];
            let stilt_height = block.stilt_height;
            structure.set_block(
                I2::new(-half_width, y),
                I2::new(1, stilt_height),
                CellState::Scaffolding,
            );
            structure.set_block(
                I2::new(half_width, y),
                I2::new(1, stilt_height),
                CellState::Scaffolding,
            );
            y += stilt_height;

            let width_mod = block.width_mod;
            span += width_mod;
            half_width += width_mod / 2;

            if span <= 1 {
                proof {
                    lemma_stopped_stays(first_width, blocks@, i + 1, block_count as int);
                }
                return structure;
            }
            let block_height = block.block_height;
            structure.set_block(
                I2::new(-half_width, y),
                I2::new(span, block_height),
                CellState::EdgeBlock,
            );
            y += block_height;
            i += 1;
        }

        Self::add_tower_roofs(&mut structure, towers, -half_width, half_width + 1, y);

        structure
    }

    /// Picks the archetype of this generator's structure: draws a number
    /// from 0 to 2 for the key `"type"` and takes the archetype that the
    /// number stands for. Which number is drawn is not stated.
    fn choose_archetype(&self) -> (archetype: Archetype)
        ensures
            exists|kind: usize| kind <= 2 && archetype == #[trigger] Archetype::spec_of_kind(kind),
    {
        let kind = froggy_usize_range(self.seed, "type", 0, 2);
        Archetype::of_kind(kind)
    }

    /// Picks the half width of a gothic house and builds the house with the
    /// towers that were rolled.
    fn draw_gothic_house(&self, rolls: &Rolls) -> (structure: IntermediateStructure)
        requires
            rolls.valid(),
        ensures
            structure.wf(),
            structure@ == cells_of(rolls.draws(self.spec_seed(), Archetype::GothicHouse)),
    {
        let choices: [i32; 3] = [1, 2, 3];
        let half_width = froggy_choose(self.seed, "half_width", 0, "gothic", &choices);
        Self::gen_gothic_house(half_width, &rolls.gothic_towers)
    }

    /// Picks the number of storeys of an industrial structure, its first
    /// width, and for each storey the change of width, and builds the
    /// structure with the heights and the towers that were rolled.
    fn draw_industrial(&self, rolls: &Rolls) -> (structure: IntermediateStructure)
        requires
            rolls.valid(),
        ensures
            structure.wf(),
            structure@ == cells_of(rolls.draws(self.spec_seed(), Archetype::Industrial)),
    {
        let counts: [i32; 2] = [2, 3];
        let block_count = froggy_choose(self.seed, "block_count", 0, "industrial", &counts);
        let widths: [i32; 3] = [3, 3, 5];
        let width = froggy_choose(self.seed, "width", 0, "industrial", &widths);
        let width_mods: [i32; 4] = [-2, 0, 0, 2];

        let mut blocks: Vec<BlockPlan> = Vec::new();
        let mut i: u8 = 0;
        while (i as i32) < block_count
            invariant
                rolls.valid(),
                0 <= i <= block_count <= 3,
                width_mods@ == seq![-2i32, 0i32, 0i32, 2i32],
                blocks@ == picked_blocks(self.spec_seed(), rolls.blocks@, i as int),
                forall|k: int| 0 <= k < i ==> (#[trigger] blocks@[k]).valid(),
            decreases block_count - i,
        {
            let width_mod = froggy_choose(self.seed, "width_mod", i, "industrial", &width_mods);
            let rolled = rolls.blocks[i as usize];
            blocks.push(
                BlockPlan {
                    stilt_height: rolled.stilt_height,
                    width_mod,
                    block_height: rolled.block_height,
                },
            );
            i += 1;
        }
        Self::gen_industrial(block_count, width, &blocks, &rolls.industrial_towers)
    }

    /// The blueprint of a structure of the archetype `archetype`, generated
    /// from what the generator picks for it and from the rolls.
    pub fn gen_archetype(&self, archetype: Archetype, rolls: &Rolls) -> (blue: Blueprint)
        requires
            rolls.valid(),
        ensures
            blue.wf(),
            blue@.ropes_fit(),
            generated(rolls.draws(self.spec_seed(), archetype), blue@),
    {
        let mut structure = match archetype {
            Archetype::GothicHouse => self.draw_gothic_house(rolls),
            Archetype::Industrial => self.draw_industrial(rolls),
            Archetype::Tower => Self::gen_tower(rolls.tower_height),
        };
        structure.to_blueprint()
    }

    /// The blueprint of a structure of the archetype that the generator
    /// picks, generated from what it picks further and from the rolls.
    pub fn gen(&self, rolls: &Rolls) -> (blue: Blueprint)
        requires
            rolls.valid(),
        ensures
            blue.wf(),
            blue@.ropes_fit(),
            exists|archetype: Archetype| #[trigger]
                generated(rolls.draws(self.spec_seed(), archetype), blue@),
    {
        let archetype = self.choose_archetype();
        let blue = self.gen_archetype(archetype, rolls);
        blue
    }
}

/// A structure that has stopped stays as it is, whatever storeys follow.
pub proof fn lemma_stopped_stays(width: int, blocks: Seq<BlockPlan>, n: int, later: int)
    requires
        0 <= n <= later,
        raise_blocks(width, blocks, n).stopped,
    ensures
        raise_blocks(width, blocks, later) == raise_blocks(width, blocks, n),
    decreases later - n,
{
    if n < later {
        lemma_stopped_stays(width, blocks, n, later - 1);
    }
}

/// `v` is a result of the blueprint position `p` as a vector: half of each
/// doubled coordinate.
pub open spec fn is_local<S: Scalar>(p: LocalPoint, v: Vec2<S>) -> bool {
    is_ratio(p.twice_x, 2, v.x) && is_ratio(p.twice_y, 2, v.y)
}

/// The blueprint position `p` as a vector.
pub fn local_to_vec2<S: Scalar>(p: LocalPoint) -> (v: Vec2<S>)
    ensures
        is_local(p, v),
{
    Vec2::new(S::from_ratio(p.twice_x, 2), S::from_ratio(p.twice_y, 2))
}

/// The indices in the world, counted from `base`, of those among the first
/// `n` of the nodes `nodes` that are pinned, or of those that are not.
pub open spec fn node_ids(nodes: Seq<(LocalPoint, bool)>, base: int, n: int, pinned: bool) -> Seq<
    usize,
>
    decreases n,
{
    if n <= 0 {
        Seq::empty()
    } else if nodes[n - 1].1 == pinned {
        node_ids(nodes, base, n - 1, pinned).push((base + n - 1) as usize)
    } else {
        node_ids(nodes, base, n - 1, pinned)
    }
}

/// The indices in the world, counted from `base`, of those among the first
/// `n` of the ropes `ropes` that are drawn, or of those that are not.
pub open spec fn rope_ids(ropes: Seq<(usize, usize, bool)>, base: int, n: int, visible: bool) -> Seq<
    usize,
>
    decreases n,
{
    if n <= 0 {
        Seq::empty()
    } else if ropes[n - 1].2 == visible {
        rope_ids(ropes, base, n - 1, visible).push((base + n - 1) as usize)
    } else {
        rope_ids(ropes, base, n - 1, visible)
    }
}

/// What a blueprint became in a world: the indices, in that world, of its
/// pinned nodes, of its other nodes, of its drawn ropes and of its ropes that
/// are not drawn.
pub struct GeneratedStructure {
    pub floor_pinned_nodes: Vec<usize>,
    pub nodes: Vec<usize>,
    pub ropes: Vec<usize>,
    pub ropes_nodraw: Vec<usize>,
}

impl Default for GeneratedStructure {
    /// The record of nothing.
    fn default() -> (g: Self)
        ensures
            g.floor_pinned_nodes@.len() == 0,
            g.nodes@.len() == 0,
            g.ropes@.len() == 0,
            g.ropes_nodraw@.len() == 0,
    {
        GeneratedStructure {
            floor_pinned_nodes: Vec::new(),
            nodes: Vec::new(),
            ropes: Vec::new(),
            ropes_nodraw: Vec::new(),
        }
    }
}

impl GeneratedStructure {
    /// Whether `world` is `old` with the blueprint `blue` placed in it by
    /// `transform`: after the nodes and ropes of `old`, which are as they
    /// were, it has one free node at rest for each node of the blueprint,
    /// in their order, at the place that the transform gives for it; and one
    /// whole rope for each rope of the blueprint, in their order, between
    /// the nodes made for its two nodes, as long as the two are apart.
    pub open spec fn placed<S: Scalar, F: Force<S>, T: BlueprintToWorldTransform<S>>(
        blue: BlueprintModel,
        transform: T,
        old: World<S, F>,
        world: World<S, F>,
    ) -> bool {
        let base = old.nodes@.len() as int;
        let first_rope = old.ropes@.len() as int;
        &&& world.forces@ == old.forces@
        &&& world.colliders@ == old.colliders@
        &&& world.nodes@.len() == base + blue.nodes.len()
        &&& world.ropes@.len() == first_rope + blue.ropes.len()
        &&& forall|i: int| 0 <= i < base ==> #[trigger] world.nodes@[i] == old.nodes@[i]
        &&& forall|i: int| 0 <= i < first_rope ==> #[trigger] world.ropes@[i] == old.ropes@[i]
        &&& forall|k: int|
            0 <= k < blue.nodes.len() ==> {
                let node = #[trigger] world.nodes@[base + k];
                &&& node.node_type == NodeType::Free
                &&& node.prev_pos == node.pos
                &&& exists|local: Vec2<S>| #[trigger]
                    is_local(blue.nodes[k].0, local) && is_transformed(transform, local, node.pos)
            }
        &&& forall|j: int|
            0 <= j < blue.ropes.len() ==> {
                let rope = #[trigger] world.ropes@[first_rope + j];
                &&& rope.from == base + blue.ropes[j].0
                &&& rope.to == base + blue.ropes[j].1
                &&& !rope.broken
                &&& is_dist_between(world.nodes@, rope)
            }
    }

    /// Places the blueprint `blue` in `world`, each node where `transform`
    /// puts it, and tells which nodes and ropes of the world it has become.
    /// Every rope of the blueprint has to join two of its nodes.
    pub fn from_blueprint<S: Scalar, F: Force<S>, T: BlueprintToWorldTransform<S>>(
        blue: &Blueprint,
        world: &mut World<S, F>,
        transform: &T,
    ) -> (generated: Self)
        requires
            blue.wf(),
            blue@.ropes_fit(),
            old(world).wf(),
        ensures
            final(world).wf(),
            Self::placed(blue@, *transform, *old(world), *final(world)),
            generated.floor_pinned_nodes@ == node_ids(
                blue@.nodes,
                old(world).nodes@.len() as int,
                blue@.nodes.len() as int,
                true,
            ),
            generated.nodes@ == node_ids(
                blue@.nodes,
                old(world).nodes@.len() as int,
                blue@.nodes.len() as int,
                false,
            ),
            generated.ropes@ == rope_ids(
                blue@.ropes,
                old(world).ropes@.len() as int,
                blue@.ropes.len() as int,
                true,
            ),
            generated.ropes_nodraw@ == rope_ids(
                blue@.ropes,
                old(world).ropes@.len() as int,
                blue@.ropes.len() as int,
                false,
            ),
    {
        let mut generated = Self::default();
        let mut realised_node_ids: Vec<usize> = Vec::new();
        let nodes = blue.nodes();
        let ropes = blue.ropes();
        let ghost base = world.nodes@.len() as int;
        let ghost first_rope = world.ropes@.len() as int;

        let mut k: usize = 0;
        while k < nodes.len()
            invariant
                k <= nodes@.len(),
                nodes@ == blue@.nodes,
                world.wf(),
                world.forces@ == old(world).forces@,
                world.colliders@ == old(world).colliders@,
                world.ropes@ == old(world).ropes@,
                base == old(world).nodes@.len(),
                world.nodes@.len() == base + k,
                realised_node_ids@.len() == k,
                forall|i: int| 0 <= i < k ==> #[trigger] realised_node_ids@[i] == base + i,
                forall|i: int| 0 <= i < base ==> #[trigger] world.nodes@[i] == old(world).nodes@[i],
                forall|i: int|
                    0 <= i < k ==> {
                        let node = #[trigger] world.nodes@[base + i];
                        &&& node.node_type == NodeType::Free
                        &&& node.prev_pos == node.pos
                        &&& exists|local: Vec2<S>| #[trigger]
                            is_local(blue@.nodes[i].0, local) && is_transformed(
                                *transform,
                                local,
                                node.pos,
                            )
                    },
                generated.floor_pinned_nodes@ == node_ids(blue@.nodes, base, k as int, true),
                generated.nodes@ == node_ids(blue@.nodes, base, k as int, false),
                generated.ropes@.len() == 0,
                generated.ropes_nodraw@.len() == 0,
            decreases nodes@.len() - k,
        {
            let (node_pos, is_floor_pinned) = nodes[k];
            let local = local_to_vec2(node_pos);
            let p = transform.transform(local);

            let id = world.add_node(p);
            realised_node_ids.push(id);
            if is_floor_pinned {
                generated.floor_pinned_nodes.push(id);
            } else {
                generated.nodes.push(id);
            }
            k += 1;
        }
        let ghost all_nodes = world.nodes@;

        let mut j: usize = 0;
        while j < ropes.len()
            invariant
                j <= ropes@.len(),
                ropes@ == blue@.ropes,
                blue@.wf(),
                blue@.ropes_fit(),
                world.wf(),
                world.forces@ == old(world).forces@,
                world.colliders@ == old(world).colliders@,
                world.nodes@ == all_nodes,
                all_nodes.len() == base + blue@.nodes.len(),
                first_rope == old(world).ropes@.len(),
                world.ropes@.len() == first_rope + j,
                realised_node_ids@.len() == blue@.nodes.len(),
                forall|i: int|
                    0 <= i < realised_node_ids@.len() ==> #[trigger] realised_node_ids@[i] == base
                        + i,
                forall|i: int|
                    0 <= i < first_rope ==> #[trigger] world.ropes@[i] == old(world).ropes@[i],
                forall|i: int|
                    0 <= i < j ==> {
                        let rope = #[trigger] world.ropes@[first_rope + i];
                        &&& rope.from == base + blue@.ropes[i].0
                        &&& rope.to == base + blue@.ropes[i].1
                        &&& !rope.broken
                        &&& is_dist_between(all_nodes, rope)
                    },
                generated.floor_pinned_nodes@ == node_ids(
                    blue@.nodes,
                    base,
                    blue@.nodes.len() as int,
                    true,
                ),
                generated.nodes@ == node_ids(blue@.nodes, base, blue@.nodes.len() as int, false),
                generated.ropes@ == rope_ids(blue@.ropes, first_rope, j as int, true),
                generated.ropes_nodraw@ == rope_ids(blue@.ropes, first_rope, j as int, false),
            decreases ropes@.len() - j,
        {
            let (from, to, visible) = ropes[j];
            let ghost before = *world;
            let rope_id = world.add_rope(realised_node_ids[from], realised_node_ids[to]);
            if visible {
                generated.ropes.push(rope_id);
            } else {
                generated.ropes_nodraw.push(rope_id)
            }
            assert forall|i: int| 0 <= i < first_rope + j implies #[trigger] world.ropes@[i]
                == before.ropes@[i] by {}
            j += 1;
        }

        generated
    }
}

} // verus!
