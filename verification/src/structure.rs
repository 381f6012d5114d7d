//! The cells of a structure before it becomes a blueprint, and the scan
//! that turns the cells into nodes and ropes.

use crate::blueprint::{Blueprint, BlueprintModel};
use crate::dense_grid::{DenseGrid, LocalPoint, I2, COORD_LIMIT};
use vstd::prelude::*;

verus! {

/// What fills one cell of a structure.
#[derive(Debug, Copy, Clone, PartialEq, Eq, Structural)]
pub enum CellState {
    Empty,
    Roof,
    EdgeBlock,
    Scaffolding,
}

impl Default for CellState {
    /// A cell is `Empty` until it is set.
    fn default() -> (state: Self)
        ensures
            state == CellState::Empty,
    {
        CellState::Empty
    }
}

/// The cells of a structure: a cell that was never set is `Empty`.
pub struct IntermediateStructure {
    grid: DenseGrid<CellState>,
}

impl View for IntermediateStructure {
    type V = Map<(int, int), CellState>;

    /// The state of every cell of the plane.
    closed spec fn view(&self) -> Map<(int, int), CellState> {
        Map::new(
            |c: (int, int)| true,
            |c: (int, int)|
                if self.grid.contains(c.0, c.1) {
                    self.grid.cell(c.0, c.1)
                } else {
                    CellState::Empty
                },
        )
    }
}

impl Default for IntermediateStructure {
    /// The structure whose cells are all `Empty`.
    fn default() -> (s: Self)
        ensures
            s.wf(),
            s@ == all_empty(),
    {
        IntermediateStructure { grid: DenseGrid::default() }
    }
}

/// Every cell of the plane has a state.
pub broadcast proof fn lemma_cells_total(s: &IntermediateStructure)
    ensures
        #![trigger s@]
        s@.dom() == Set::<(int, int)>::full(),
{
}

/// The plane of `Empty` cells.
pub open spec fn all_empty() -> Map<(int, int), CellState> {
    Map::new(|c: (int, int)| true, |c: (int, int)| CellState::Empty)
}

/// The largest distance from the origin that the coordinates of a cell which
/// is set may have: one less than the grid allows, so that the corners of the
/// cell are points of the grid too.
pub const CELL_LIMIT: i32 = 0x3fff_ffff;

impl IntermediateStructure {
    /// What holds of every structure: its grid is in order, and the cells
    /// that the grid holds beyond the limit for cells are `Empty`.
    pub closed spec fn wf(&self) -> bool {
        &&& self.grid.wf()
        &&& forall|x: int, y: int|
            #![trigger self.grid.cell(x, y)]
            self.grid.contains(x, y) && !(-CELL_LIMIT < x < CELL_LIMIT && -CELL_LIMIT < y
                < CELL_LIMIT) ==> self.grid.cell(x, y) == CellState::Empty
    }

    /// The state of the cell at `pos`. No cell changes, and the grid does
    /// not grow: what lies outside it is `Empty`.
    fn read(&mut self, pos: I2) -> (state: CellState)
        requires
            old(self).wf(),
        ensures
            final(self).wf(),
            final(self)@ == old(self)@,
            state == old(self)@[(pos.x as int, pos.y as int)],
    {
        proof {
            self.grid.lemma_reach_in_limit();
        }
        let max_x = self.grid.max_x();
        let max_y = self.grid.max_y();
        if -max_x < pos.x && pos.x < max_x && -max_y < pos.y && pos.y < max_y {
            self.grid.get(pos)
        } else {
            CellState::Empty
        }
    }

    /// Whether the cell at `pos` is anything but `Empty`. No cell changes.
    pub fn is_solid(&mut self, pos: I2) -> (solid: bool)
        requires
            old(self).wf(),
        ensures
            final(self).wf(),
            final(self)@ == old(self)@,
            solid == (old(self)@[(pos.x as int, pos.y as int)] != CellState::Empty),
    {
        let state = self.read(pos);
        state != CellState::Empty
    }

    /// Sets the cell at `pos` to `val`. No other cell changes.
    pub fn set(&mut self, pos: I2, val: CellState)
        requires
            old(self).wf(),
            -CELL_LIMIT < pos.x < CELL_LIMIT,
            -CELL_LIMIT < pos.y < CELL_LIMIT,
        ensures
            final(self).wf(),
            final(self)@ == old(self)@.insert((pos.x as int, pos.y as int), val),
    {
        let cell = self.grid.get_mut(pos);
        *cell = val;
    }

    /// Sets every cell of the block that has its corner of least
    /// coordinates at `corner` and `size.x` columns and `size.y` rows to
    /// `val`; a block without columns or rows has no cell. No other cell
    /// changes.
    pub fn set_block(&mut self, corner: I2, size: I2, val: CellState)
        requires
            old(self).wf(),
            size.x > 0 && size.y > 0 ==> {
                &&& -CELL_LIMIT < corner.x
                &&& corner.x + size.x <= CELL_LIMIT
                &&& -CELL_LIMIT < corner.y
                &&& corner.y + size.y <= CELL_LIMIT
            },
        ensures
            final(self).wf(),
            final(self)@ == with_block(
                old(self)@,
                corner.x as int,
                corner.y as int,
                size.x as int,
                size.y as int,
                val,
            ),
    {
        let ghost start = old(self)@;
        let mut ix: i32 = 0;
        while ix < size.x
            invariant
                self.wf(),
                0 <= ix,
                size.x > 0 ==> ix <= size.x,
                size.x <= 0 ==> ix == 0,
                size.x > 0 && size.y > 0 ==> {
                    &&& -CELL_LIMIT < corner.x
                    &&& corner.x + size.x <= CELL_LIMIT
                    &&& -CELL_LIMIT < corner.y
                    &&& corner.y + size.y <= CELL_LIMIT
                },
                self@ == with_block(
                    start,
                    corner.x as int,
                    corner.y as int,
                    ix as int,
                    size.y as int,
                    val,
                ),
            decreases size.x - ix,
        {
            let ghost column_start = self@;
            let mut iy: i32 = 0;
            while iy < size.y
                invariant
                    self.wf(),
                    0 <= ix < size.x,
                    0 <= iy,
                    size.y > 0 ==> iy <= size.y,
                    size.y <= 0 ==> iy == 0,
                    size.x > 0 && size.y > 0 ==> {
                        &&& -CELL_LIMIT < corner.x
                        &&& corner.x + size.x <= CELL_LIMIT
                        &&& -CELL_LIMIT < corner.y
                        &&& corner.y + size.y <= CELL_LIMIT
                    },
                    self@ == with_block(
                        column_start,
                        corner.x + ix,
                        corner.y as int,
                        1,
                        iy as int,
                        val,
                    ),
                decreases size.y - iy,
            {
                self.set(I2::new(corner.x + ix, corner.y + iy), val);
                iy += 1;
            }
            ix += 1;
        }
    }

    /// Gives the block cell at `p` its geometry: the four corners as nodes,
    /// the two diagonals, and the four sides. A diagonal is always drawn, and
    /// so is every side of scaffolding. Of an edge block the top is drawn
    /// unless a roof sits on it, and each other side unless the neighbour
    /// across it is an edge block too. No cell changes.
    fn add_block_cell(&mut self, blue: &mut Blueprint, p: I2, cell_state: CellState)
        requires
            old(self).wf(),
            old(blue).wf(),
            -CELL_LIMIT < p.x < CELL_LIMIT,
            -CELL_LIMIT < p.y < CELL_LIMIT,
            cell_state == old(self)@[(p.x as int, p.y as int)],
            cell_state == CellState::EdgeBlock || cell_state == CellState::Scaffolding,
        ensures
            final(self).wf(),
            final(self)@ == old(self)@,
            final(blue).wf(),
            final(blue)@ == emit_block(old(blue)@, old(self)@, p.x as int, p.y as int),
            old(blue)@.ropes_fit() ==> final(blue)@.ropes_fit(),
    {
        blue.try_add_node(p + I2::new(0, 0));
        blue.try_add_node(p + I2::new(1, 0));
        blue.try_add_node(p + I2::new(0, 1));
        blue.try_add_node(p + I2::new(1, 1));

        let top_left = p + I2::new(0, 1);
        let top_right = p + I2::new(1, 1);
        let bottom_left = p;
        let bottom_right = p + I2::new(1, 0);

        let draw_all_ropes = cell_state == CellState::Scaffolding;

        blue.try_add_rope(top_left, bottom_right, true);
        blue.try_add_rope(bottom_left, top_right, true);

        let draw_up_rope = draw_all_ropes || self.read(p + I2::new(0, 1)) != CellState::Roof;
        blue.try_add_rope(top_left, top_right, draw_up_rope);

        let draw_down_rope = draw_all_ropes || self.read(p + I2::new(0, -1))
            != CellState::EdgeBlock;
        blue.try_add_rope(bottom_left, bottom_right, draw_down_rope);

        let draw_left_rope = draw_all_ropes || self.read(p + I2::new(-1, 0))
            != CellState::EdgeBlock;
        blue.try_add_rope(top_left, bottom_left, draw_left_rope);

        let draw_right_rope = draw_all_ropes || self.read(p + I2::new(1, 0))
            != CellState::EdgeBlock;
        blue.try_add_rope(top_right, bottom_right, draw_right_rope);
    }

    /// Gives the roof cell at `p` its geometry: the two bottom corners as
    /// nodes, a node of its own for the apex, half a cell to the right of
    /// `p` and one cell above it, and three drawn ropes: the bottom side, and
    /// one from each bottom corner to the apex.
    fn add_roof_cell(blue: &mut Blueprint, p: I2)
        requires
            old(blue).wf(),
            -CELL_LIMIT < p.x < CELL_LIMIT,
            -CELL_LIMIT < p.y < CELL_LIMIT,
        ensures
            final(blue).wf(),
            final(blue)@ == emit_roof(old(blue)@, p.x as int, p.y as int),
            old(blue)@.ropes_fit() ==> final(blue)@.ropes_fit(),
    {
        let corner = p.to_v2();
        let roof_top = LocalPoint { twice_x: corner.twice_x + 1, twice_y: corner.twice_y + 2 };
        let bottom_left = p;
        let bottom_right = p + I2::new(1, 0);

        blue.try_add_node(bottom_left);
        blue.try_add_node(bottom_right);
        let roof_top_id = blue.add_off_grid(roof_top);

        blue.try_add_rope(bottom_left, bottom_right, true);
        blue.try_add_rope_pos_id(bottom_left, roof_top_id, true);
        blue.try_add_rope_pos_id(bottom_right, roof_top_id, true);
    }

    /// The blueprint of the structure: its columns are scanned from left to
    /// right, each from the ground line up, and every cell that is not
    /// `Empty` adds its geometry. No cell changes. Every rope of the
    /// blueprint joins two of its nodes.
    pub fn to_blueprint(&mut self) -> (blue: Blueprint)
        requires
            old(self).wf(),
        ensures
            final(self).wf(),
            final(self)@ == old(self)@,
            blue.wf(),
            blue@ == blueprint_of(old(self)@),
            blue@.ropes_fit(),
    {
        let mut blue = Blueprint::default();

        let w = self.grid.max_x();
        let h = self.grid.max_y();
        let ghost cells = self@;
        proof {
            self.grid.lemma_reach_in_limit();
        }

        let mut p_ground = I2::new(-w, 0);

        while p_ground.x <= w
            invariant
                self.wf(),
                self@ == cells,
                blue.wf(),
                blue@.ropes_fit(),
                0 <= w <= COORD_LIMIT,
                0 <= h <= COORD_LIMIT,
                -w <= p_ground.x <= w + 1,
                p_ground.y == 0,
                blue@ == scan_columns(
                    BlueprintModel::empty(),
                    cells,
                    -(w as int),
                    p_ground.x + w,
                    h as int,
                ),
            decreases w + 1 - p_ground.x,
        {
            let mut p = p_ground;
            let ghost column_start = blue@;

            while p.y < h
                invariant
                    self.wf(),
                    self@ == cells,
                    blue.wf(),
                    blue@.ropes_fit(),
                    0 <= h <= COORD_LIMIT,
                    p.x == p_ground.x,
                    0 <= p.y <= h,
                    blue@ == scan_column(column_start, cells, p.x as int, p.y as int),
                decreases h - p.y,
            {
                let cell_state = self.read(p);
                match cell_state {
                    CellState::EdgeBlock | CellState::Scaffolding => {
                        self.add_block_cell(&mut blue, p, cell_state);
                    },
                    CellState::Roof => {
                        Self::add_roof_cell(&mut blue, p);
                    },
                    CellState::Empty => {},
                }
                p.y += 1;
            }
            p_ground.x += 1;
        }
        proof {
            lemma_scan_of_reach(cells, w as int, h as int);
        }
        blue
    }
}

/// The blueprint position of the apex of a roof in the cell `(x, y)`: above
/// the middle of the cell's top side.
pub open spec fn apex_point(x: int, y: int) -> LocalPoint {
    LocalPoint { twice_x: (2 * x + 1) as i64, twice_y: (2 * y + 2) as i64 }
}

/// The blueprint `m` with the geometry of the block cell `(x, y)`.
pub open spec fn emit_block(
    m: BlueprintModel,
    cells: Map<(int, int), CellState>,
    x: int,
    y: int,
) -> BlueprintModel {
    let all = cells[(x, y)] == CellState::Scaffolding;
    let corners = m.try_add_node(x, y).try_add_node(x + 1, y).try_add_node(x, y + 1).try_add_node(
        x + 1,
        y + 1,
    );
    let diagonals = corners.try_add_rope(x, y + 1, x + 1, y, true).try_add_rope(
        x,
        y,
        x + 1,
        y + 1,
        true,
    );
    let top = diagonals.try_add_rope(
        x,
        y + 1,
        x + 1,
        y + 1,
        all || cells[(x, y + 1)] != CellState::Roof,
    );
    let bottom = top.try_add_rope(
        x,
        y,
        x + 1,
        y,
        all || cells[(x, y - 1)] != CellState::EdgeBlock,
    );
    let left = bottom.try_add_rope(
        x,
        y + 1,
        x,
        y,
        all || cells[(x - 1, y)] != CellState::EdgeBlock,
    );
    left.try_add_rope(x + 1, y + 1, x + 1, y, all || cells[(x + 1, y)] != CellState::EdgeBlock)
}

/// The blueprint `m` with the geometry of the roof cell `(x, y)`.
pub open spec fn emit_roof(m: BlueprintModel, x: int, y: int) -> BlueprintModel {
    let corners = m.try_add_node(x, y).try_add_node(x + 1, y);
    let apex = corners.nodes.len() as usize;
    corners.add_off_grid(apex_point(x, y)).try_add_rope(x, y, x + 1, y, true).try_add_rope_pos_id(
        x,
        y,
        apex,
        true,
    ).try_add_rope_pos_id(x + 1, y, apex, true)
}

/// The blueprint `m` with the geometry of the cell `(x, y)`, whatever it
/// holds.
pub open spec fn emit_cell(
    m: BlueprintModel,
    cells: Map<(int, int), CellState>,
    x: int,
    y: int,
) -> BlueprintModel {
    match cells[(x, y)] {
        CellState::EdgeBlock | CellState::Scaffolding => emit_block(m, cells, x, y),
        CellState::Roof => emit_roof(m, x, y),
        CellState::Empty => m,
    }
}

/// The blueprint `m` after the cells `(x, 0)` to `(x, n - 1)` were scanned,
/// from the ground line up.
pub open spec fn scan_column(
    m: BlueprintModel,
    cells: Map<(int, int), CellState>,
    x: int,
    n: int,
) -> BlueprintModel
    decreases n,
{
    if n <= 0 {
        m
    } else {
        emit_cell(scan_column(m, cells, x, n - 1), cells, x, n - 1)
    }
}

/// The blueprint `m` after the `k` columns from `from` on were scanned, from
/// left to right, each up to the height `h`.
pub open spec fn scan_columns(
    m: BlueprintModel,
    cells: Map<(int, int), CellState>,
    from: int,
    k: int,
    h: int,
) -> BlueprintModel
    decreases k,
{
    if k <= 0 {
        m
    } else {
        scan_column(scan_columns(m, cells, from, k - 1, h), cells, from + k - 1, h)
    }
}

/// The blueprint of the cells `cells`: every column that a structure can
/// have is scanned, from left to right, and in it every cell from the ground
/// line up.
pub open spec fn blueprint_of(cells: Map<(int, int), CellState>) -> BlueprintModel {
    scan_columns(
        BlueprintModel::empty(),
        cells,
        -(COORD_LIMIT as int),
        2 * COORD_LIMIT + 1,
        COORD_LIMIT as int,
    )
}

/// `Empty` cells at the top of a column add nothing.
pub proof fn lemma_column_top_empty(
    m: BlueprintModel,
    cells: Map<(int, int), CellState>,
    x: int,
    low: int,
    high: int,
)
    requires
        0 <= low <= high,
        forall|y: int| low <= y < high ==> #[trigger] cells[(x, y)] == CellState::Empty,
    ensures
        scan_column(m, cells, x, high) == scan_column(m, cells, x, low),
    decreases high - low,
{
    if low < high {
        lemma_column_top_empty(m, cells, x, low, high - 1);
    }
}

/// Columns scanned higher give the same blueprint where the cells above the
/// lower height are `Empty`.
pub proof fn lemma_columns_higher(
    m: BlueprintModel,
    cells: Map<(int, int), CellState>,
    from: int,
    k: int,
    low: int,
    high: int,
)
    requires
        0 <= low <= high,
        forall|x: int, y: int|
            from <= x < from + k && low <= y < high ==> #[trigger] cells[(x, y)]
                == CellState::Empty,
    ensures
        scan_columns(m, cells, from, k, high) == scan_columns(m, cells, from, k, low),
    decreases k,
{
    if k > 0 {
        lemma_columns_higher(m, cells, from, k - 1, low, high);
        lemma_column_top_empty(
            scan_columns(m, cells, from, k - 1, low),
            cells,
            from + k - 1,
            low,
            high,
        );
    }
}

/// Columns of `Empty` cells on the right add nothing.
pub proof fn lemma_columns_right_empty(
    m: BlueprintModel,
    cells: Map<(int, int), CellState>,
    from: int,
    few: int,
    many: int,
    h: int,
)
    requires
        0 <= few <= many,
        0 <= h,
        forall|x: int, y: int|
            from + few <= x < from + many && 0 <= y < h ==> #[trigger] cells[(x, y)]
                == CellState::Empty,
    ensures
        scan_columns(m, cells, from, many, h) == scan_columns(m, cells, from, few, h),
    decreases many - few,
{
    if few < many {
        lemma_columns_right_empty(m, cells, from, few, many - 1, h);
        lemma_column_top_empty(
            scan_columns(m, cells, from, many - 1, h),
            cells,
            from + many - 1,
            0,
            h,
        );
    }
}

/// Columns of `Empty` cells on the left add nothing.
pub proof fn lemma_columns_left_empty(
    m: BlueprintModel,
    cells: Map<(int, int), CellState>,
    from: int,
    skipped: int,
    k: int,
    h: int,
)
    requires
        0 <= skipped <= k,
        0 <= h,
        forall|x: int, y: int|
            from <= x < from + skipped && 0 <= y < h ==> #[trigger] cells[(x, y)]
                == CellState::Empty,
    ensures
        scan_columns(m, cells, from, k, h) == scan_columns(
            m,
            cells,
            from + skipped,
            k - skipped,
            h,
        ),
    decreases k - skipped,
{
    if skipped < k {
        lemma_columns_left_empty(m, cells, from, skipped, k - 1, h);
    } else {
        lemma_columns_right_empty(m, cells, from, 0, k, h);
    }
}

/// The scan of the columns and rows within a reach outside which every cell
/// is `Empty` gives the blueprint of the cells.
pub proof fn lemma_scan_of_reach(cells: Map<(int, int), CellState>, w: int, h: int)
    requires
        0 <= w <= COORD_LIMIT,
        0 <= h <= COORD_LIMIT,
        forall|x: int, y: int|
            !(-w < x < w && -h < y < h) ==> #[trigger] cells[(x, y)] == CellState::Empty,
    ensures
        scan_columns(BlueprintModel::empty(), cells, -w, 2 * w + 1, h) == blueprint_of(cells),
{
    let empty = BlueprintModel::empty();
    let limit = COORD_LIMIT as int;
    lemma_columns_higher(empty, cells, -limit, 2 * limit + 1, h, limit);
    lemma_columns_right_empty(empty, cells, -limit, limit + w + 1, 2 * limit + 1, h);
    lemma_columns_left_empty(empty, cells, -limit, limit - w, limit + w + 1, h);
}

/// The cells `cells` with every cell of a block set to `val`: the block has
/// its corner of least coordinates at `(x, y)`, `columns` columns and `rows`
/// rows.
pub open spec fn with_block(
    cells: Map<(int, int), CellState>,
    x: int,
    y: int,
    columns: int,
    rows: int,
    val: CellState,
) -> Map<(int, int), CellState> {
    Map::new(
        |c: (int, int)| true,
        |c: (int, int)|
            if x <= c.0 < x + columns && y <= c.1 < y + rows {
                val
            } else {
                cells[c]
            },
    )
}

} // verus!
