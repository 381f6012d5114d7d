//! Signed integer coordinates and a dense grid around the origin that grows
//! on demand.

use vstd::prelude::*;
use vstd::std_specs::ops::AddSpecImpl;

verus! {

/// A point of the integer grid.
#[derive(Debug, Copy, Clone, PartialEq, Eq, Structural)]
pub struct I2 {
    pub x: i32,
    pub y: i32,
}

/// A position in blueprint space, held exactly: both coordinates are stored
/// doubled, so that half cells can be told apart.
#[derive(Debug, Copy, Clone, PartialEq, Eq, Structural)]
pub struct LocalPoint {
    pub twice_x: i64,
    pub twice_y: i64,
}

impl I2 {
    /// The point with the coordinates `x` and `y`.
    pub fn new(x: i32, y: i32) -> (p: Self)
        ensures
            p.x == x,
            p.y == y,
    {
        Self { x, y }
    }

    /// The same point in blueprint space.
    pub fn to_v2(self) -> (v: LocalPoint)
        ensures
            v.twice_x == 2 * self.x,
            v.twice_y == 2 * self.y,
    {
        LocalPoint { twice_x: 2 * (self.x as i64), twice_y: 2 * (self.y as i64) }
    }
}

impl AddSpecImpl for I2 {
    open spec fn obeys_add_spec() -> bool {
        true
    }

    open spec fn add_req(self, other: I2) -> bool {
        &&& i32::MIN <= self.x + other.x <= i32::MAX
        &&& i32::MIN <= self.y + other.y <= i32::MAX
    }

    open spec fn add_spec(self, other: I2) -> I2 {
        I2 { x: (self.x + other.x) as i32, y: (self.y + other.y) as i32 }
    }
}

impl std::ops::Add for I2 {
    type Output = Self;

    /// The sum of the two points, coordinate by coordinate, where neither
    /// coordinate overflows.
    fn add(self, other: Self) -> Self {
        Self { x: self.x + other.x, y: self.y + other.y }
    }
}

/// Whether `v` is a value that `T::default()` may return.
pub open spec fn is_default<T: Default>(v: T) -> bool {
    call_ensures(T::default, (), v)
}

/// Whether an axis whose coordinates reach from `-max` to `max`, both
/// excluded, holds the coordinate `c`.
pub open spec fn axis_holds(max: int, c: int) -> bool {
    -max < c < max
}

/// The reach of an axis after one growth: 4 for an axis that holds nothing
/// yet, twice the reach otherwise.
pub open spec fn next_max(max: int) -> int {
    if max <= 0 {
        4
    } else {
        2 * max
    }
}

/// The reach of an axis that had the reach `max`, once it has grown until it
/// holds `c`.
pub open spec fn grown_max(max: int, c: int) -> int
    decreases 2 * vstd::math::abs(c) + 4 - max,
{
    if axis_holds(max, c) {
        max
    } else {
        grown_max(next_max(max), c)
    }
}

/// The largest distance from the origin that a coordinate handed to the grid
/// may have: an axis that held it would not have its reach in an `i32`.
pub const COORD_LIMIT: i32 = 0x4000_0000;

/// Whether `max` is a reach that an axis can have: none, or 4 doubled some
/// number of times.
pub open spec fn is_reach(max: int) -> bool
    decreases max,
{
    max == 0 || max == 4 || (max > 4 && max % 2 == 0 && is_reach(max / 2))
}

/// Of two reaches the next after the smaller one is not beyond the larger
/// one: there is no reach in between.
pub proof fn lemma_next_max_within(max: int, bound: int)
    requires
        is_reach(max),
        is_reach(bound),
        max < bound,
    ensures
        is_reach(next_max(max)),
        next_max(max) <= bound,
    decreases bound,
{
    if max == 4 {
        assert(is_reach(bound / 2));
    } else if max > 4 {
        lemma_next_max_within(max / 2, bound / 2);
    }
}

/// The limit for coordinates is itself a reach, the longest.
pub proof fn lemma_limit_is_reach()
    ensures
        is_reach(COORD_LIMIT as int),
{
    reveal_with_fuel(is_reach, 30);
}

/// A dense grid of `T` around the origin. It holds the coordinates `(x, y)`
/// with `-max_x < x < max_x` and `-max_y < y < max_y`, and grows by itself
/// when a coordinate outside is asked for.
pub struct DenseGrid<T> {
    width: usize,
    rows: Vec<Vec<T>>,
}

impl<T> DenseGrid<T> {
    /// The reach of the grid along x.
    pub closed spec fn spec_max_x(&self) -> int {
        self.width as int / 2
    }

    /// The reach of the grid along y.
    pub closed spec fn spec_max_y(&self) -> int {
        self.rows.len() as int / 2
    }

    /// Whether the grid holds the coordinate `(x, y)` without growing.
    pub open spec fn contains(&self, x: int, y: int) -> bool {
        axis_holds(self.spec_max_x(), x) && axis_holds(self.spec_max_y(), y)
    }

    /// The value at `(x, y)`; it has a meaning where `contains(x, y)`.
    pub closed spec fn cell(&self, x: int, y: int) -> T {
        self.rows[self.spec_max_y() + y][self.spec_max_x() + x]
    }
}

/// A row of `width` default values.
fn default_row<T: Default>(width: usize) -> (row: Vec<T>)
    ensures
        row.len() == width,
        forall|i: int| 0 <= i < width ==> is_default(#[trigger] row[i]),
{
    let mut row: Vec<T> = Vec::new();
    while row.len() < width
        invariant
            row.len() <= width,
            forall|i: int| 0 <= i < row.len() ==> is_default(#[trigger] row[i]),
        decreases width - row.len(),
    {
        row.push(T::default());
    }
    row
}

/// Where the first item of a vector of length `old_len` stands once the
/// vector has been centred in one of length `new_len`.
pub open spec fn centre_offset(new_len: int, old_len: int) -> int {
    (new_len - old_len) / 2
}

/// Moves the items of `old` into the middle of a vector of length `new_size`
/// and fills the rest with what `fill` makes.
fn expand_vec<T, F: Fn() -> T>(new_size: usize, old: Vec<T>, fill: F) -> (new: Vec<T>)
    requires
        old.len() <= new_size,
        call_requires(fill, ()),
    ensures
        new.len() == new_size,
        forall|i: int|
            0 <= i < old.len() ==> new[i + centre_offset(new_size as int, old.len() as int)]
                == #[trigger] old[i],
        forall|j: int|
            0 <= j < new_size && !(0 <= j - centre_offset(new_size as int, old.len() as int)
                < old.len()) ==> call_ensures(fill, (), #[trigger] new[j]),
{
    let offset = (new_size - old.len()) / 2;
    let mut new: Vec<T> = Vec::new();
    while new.len() < offset
        invariant
            new.len() <= offset,
            call_requires(fill, ()),
            forall|j: int| 0 <= j < new.len() ==> call_ensures(fill, (), #[trigger] new[j]),
        decreases offset - new.len(),
    {
        new.push(fill());
    }
    let mut old = old;
    let ghost moved = old@;
    new.append(&mut old);
    while new.len() < new_size
        invariant
            offset + moved.len() <= new.len() <= new_size,
            call_requires(fill, ()),
            forall|i: int| 0 <= i < moved.len() ==> new[i + offset] == #[trigger] moved[i],
            forall|j: int|
                0 <= j < new.len() && !(0 <= j - offset < moved.len()) ==> call_ensures(
                    fill,
                    (),
                    #[trigger] new[j],
                ),
        decreases new_size - new.len(),
    {
        new.push(fill());
    }
    new
}

impl<T: Clone + Default> Default for DenseGrid<T> {
    /// The empty grid: it holds no coordinate.
    fn default() -> (g: Self)
        ensures
            g.wf(),
            g.spec_max_x() == 0,
            g.spec_max_y() == 0,
    {
        Self { width: 0, rows: Vec::new() }
    }
}

impl<T: Clone + Default> DenseGrid<T> {
    /// What holds of every grid: each row is as long as the grid is wide;
    /// both sides are twice a reach that an axis can have, within the limit
    /// for coordinates; and the first row and the first column, which lie
    /// outside the reach, hold default values.
    pub closed spec fn wf(&self) -> bool {
        &&& self.width % 2 == 0
        &&& self.rows.len() % 2 == 0
        &&& is_reach(self.width as int / 2)
        &&& is_reach(self.rows.len() as int / 2)
        &&& self.width / 2 <= COORD_LIMIT
        &&& self.rows.len() / 2 <= COORD_LIMIT
        &&& forall|j: int| 0 <= j < self.rows.len() ==> (#[trigger] self.rows[j]).len() == self.width
        &&& forall|j: int, i: int|
            0 <= j < self.rows.len() && 0 <= i < self.width && (j == 0 || i == 0) ==> is_default(
                #[trigger] self.rows[j][i],
            )
    }

    /// The reach of a grid is one that an axis can have, and within the
    /// limit for coordinates.
    pub proof fn lemma_reach_in_limit(&self)
        requires
            self.wf(),
        ensures
            is_reach(self.spec_max_x()),
            is_reach(self.spec_max_y()),
            0 <= self.spec_max_x() <= COORD_LIMIT,
            0 <= self.spec_max_y() <= COORD_LIMIT,
    {
    }

    /// Whether this grid has at `(x, y)` what `old` had there, or a default
    /// value where `old` did not hold `(x, y)`.
    #[verifier::inline]
    pub open spec fn keeps(&self, old: &Self, x: int, y: int) -> bool {
        if old.contains(x, y) {
            self.cell(x, y) == old.cell(x, y)
        } else {
            is_default(self.cell(x, y))
        }
    }

    /// Whether this grid is `old` after growth alone: it holds at least what
    /// `old` held, unchanged, and default values everywhere else.
    pub open spec fn extends(&self, old: &Self) -> bool {
        &&& self.spec_max_x() >= old.spec_max_x()
        &&& self.spec_max_y() >= old.spec_max_y()
        &&& forall|x: int, y: int|
            #![trigger self.cell(x, y)]
            #![trigger old.contains(x, y)]
            self.contains(x, y) ==> self.keeps(old, x, y)
    }

    /// Whether this grid is `old` after the cell at `(x, y)` was asked for
    /// and `v` was left in it: the grid has grown until it holds `(x, y)`,
    /// has `v` there, and has kept every other cell.
    pub open spec fn after_write(&self, old: &Self, x: int, y: int, v: T) -> bool {
        &&& self.wf()
        &&& self.spec_max_x() == grown_max(old.spec_max_x(), x)
        &&& self.spec_max_y() == grown_max(old.spec_max_y(), y)
        &&& self.contains(x, y)
        &&& self.cell(x, y) == v
        &&& forall|a: int, b: int|
            #![trigger self.cell(a, b)]
            #![trigger old.contains(a, b)]
            self.contains(a, b) && !(a == x && b == y) ==> self.keeps(old, a, b)
    }

    /// Whether this grid is `old` after `(x, y)` was read with the result
    /// `r`: the grid has grown until it holds `(x, y)`, has changed no cell,
    /// and `r` is a copy of the cell at `(x, y)`.
    pub open spec fn after_read(&self, old: &Self, x: int, y: int, r: T) -> bool {
        &&& self.wf()
        &&& self.spec_max_x() == grown_max(old.spec_max_x(), x)
        &&& self.spec_max_y() == grown_max(old.spec_max_y(), y)
        &&& self.contains(x, y)
        &&& self.extends(old)
        &&& cloned(self.cell(x, y), r)
    }

    /// The reach along x: the grid holds the columns strictly between
    /// `-max_x` and `max_x`.
    pub fn max_x(&self) -> (m: i32)
        requires
            self.wf(),
        ensures
            m == self.spec_max_x(),
    {
        (self.width / 2) as i32
    }

    /// The reach along y: the grid holds the rows strictly between `-max_y`
    /// and `max_y`.
    pub fn max_y(&self) -> (m: i32)
        requires
            self.wf(),
        ensures
            m == self.spec_max_y(),
    {
        (self.rows.len() / 2) as i32
    }

    /// Doubles the width (from nothing, makes it 8) and centres every row in
    /// its longer successor.
    fn expand_x(&mut self)
        requires
            old(self).wf(),
            old(self).spec_max_x() < COORD_LIMIT,
        ensures
            final(self).wf(),
            final(self).spec_max_x() == next_max(old(self).spec_max_x()),
            final(self).spec_max_y() == old(self).spec_max_y(),
            final(self).extends(old(self)),
    {
        proof {
            lemma_limit_is_reach();
            lemma_next_max_within(self.spec_max_x(), COORD_LIMIT as int);
        }
        let new_width: usize = if self.width == 0 {
            8
        } else {
            self.width * 2
        };
        let ghost before = *self;
        let ghost offset = centre_offset(new_width as int, self.width as int);
        let mut j: usize = 0;
        while j < self.rows.len()
            invariant
                before.wf(),
                self.width == before.width,
                new_width == 2 * next_max(before.spec_max_x()),
                offset == centre_offset(new_width as int, before.width as int),
                self.rows.len() == before.rows.len(),
                j <= self.rows.len(),
                forall|k: int| j <= k < self.rows.len() ==> self.rows[k] == before.rows[k],
                forall|k: int| 0 <= k < j ==> (#[trigger] self.rows[k]).len() == new_width,
                forall|k: int, i: int|
                    0 <= k < j && 0 <= i < before.width ==> self.rows[k][i + offset]
                        == #[trigger] before.rows[k][i],
                forall|k: int, i: int|
                    0 <= k < j && 0 <= i < new_width && !(0 <= i - offset < before.width)
                        ==> is_default(#[trigger] self.rows[k][i]),
            decreases self.rows.len() - j,
        {
            assert(before.rows[j as int].len() == before.width);
            let mut row: Vec<T> = Vec::new();
            std::mem::swap(&mut row, &mut self.rows[j]);
            let fill = || -> (v: T)
                ensures
                    is_default(v),
            {
                T::default()
            };
            let mut new_row = expand_vec(new_width, row, fill);
            std::mem::swap(&mut new_row, &mut self.rows[j]);
            j += 1;
        }
        self.width = new_width;
        proof {
            assert forall|k: int, i: int|
                0 <= k < self.rows.len() && 0 <= i < self.width && (k == 0 || i == 0)
                    implies is_default(#[trigger] self.rows[k][i]) by {
                if 0 <= i - offset < before.width {
                    assert(is_default(before.rows[k][i - offset]));
                }
            }
            assert forall|x: int, y: int|
                #![trigger self.cell(x, y)]
                #![trigger before.contains(x, y)]
                self.contains(x, y) implies self.keeps(&before, x, y) by {
                let k = self.spec_max_y() + y;
                let i = before.spec_max_x() + x;
                if 0 <= i < before.width {
                    assert(self.rows[k][i + offset] == before.rows[k][i]);
                }
            }
        }
    }

    /// Doubles the height (from nothing, makes it 8) and centres the rows
    /// among new rows of default values.
    fn expand_y(&mut self)
        requires
            old(self).wf(),
            old(self).spec_max_y() < COORD_LIMIT,
        ensures
            final(self).wf(),
            final(self).spec_max_x() == old(self).spec_max_x(),
            final(self).spec_max_y() == next_max(old(self).spec_max_y()),
            final(self).extends(old(self)),
    {
        proof {
            lemma_limit_is_reach();
            lemma_next_max_within(self.spec_max_y(), COORD_LIMIT as int);
        }
        let new_height: usize = if self.rows.len() == 0 {
            8
        } else {
            self.rows.len() * 2
        };
        let ghost before = *self;
        let ghost offset = centre_offset(new_height as int, self.rows.len() as int);
        let width = self.width;
        let mut rows: Vec<Vec<T>> = Vec::new();
        std::mem::swap(&mut rows, &mut self.rows);
        let fill = || -> (row: Vec<T>)
            ensures
                row.len() == width,
                forall|i: int| 0 <= i < width ==> is_default(#[trigger] row[i]),
        {
            default_row(width)
        };
        let new_rows = expand_vec(new_height, rows, fill);
        self.rows = new_rows;
        proof {
            assert forall|j: int| 0 <= j < self.rows.len() implies (#[trigger] self.rows[j]).len()
                == self.width by {
                if 0 <= j - offset < before.rows.len() {
                    assert(self.rows[(j - offset) + offset] == before.rows[j - offset]);
                }
            }
            assert forall|j: int, i: int|
                0 <= j < self.rows.len() && 0 <= i < self.width && (j == 0 || i == 0)
                    implies is_default(#[trigger] self.rows[j][i]) by {
                if 0 <= j - offset < before.rows.len() {
                    assert(self.rows[(j - offset) + offset] == before.rows[j - offset]);
                }
            }
            assert forall|x: int, y: int|
                #![trigger self.cell(x, y)]
                #![trigger before.contains(x, y)]
                self.contains(x, y) implies self.keeps(&before, x, y) by {
                let k = before.spec_max_y() + y;
                if 0 <= k < before.rows.len() {
                    assert(self.rows[k + offset] == before.rows[k]);
                }
            }
        }
    }

    /// Grows the grid, first along y and then along x, until it holds `pos`.
    fn ensure_contains(&mut self, pos: I2)
        requires
            old(self).wf(),
            -COORD_LIMIT < pos.x < COORD_LIMIT,
            -COORD_LIMIT < pos.y < COORD_LIMIT,
        ensures
            final(self).wf(),
            final(self).spec_max_x() == grown_max(old(self).spec_max_x(), pos.x as int),
            final(self).spec_max_y() == grown_max(old(self).spec_max_y(), pos.y as int),
            final(self).contains(pos.x as int, pos.y as int),
            final(self).extends(old(self)),
    {
        let ghost before = *self;
        while pos.y >= self.max_y() || pos.y <= -self.max_y()
            invariant
                self.wf(),
                -COORD_LIMIT < pos.y < COORD_LIMIT,
                self.spec_max_x() == before.spec_max_x(),
                grown_max(self.spec_max_y(), pos.y as int) == grown_max(
                    before.spec_max_y(),
                    pos.y as int,
                ),
                self.extends(&before),
            decreases 2 * vstd::math::abs(pos.y as int) + 4 - self.spec_max_y(),
        {
            self.expand_y();
        }
        let ghost tall = *self;
        while pos.x >= self.max_x() || pos.x <= -self.max_x()
            invariant
                self.wf(),
                -COORD_LIMIT < pos.x < COORD_LIMIT,
                self.spec_max_y() == tall.spec_max_y(),
                grown_max(self.spec_max_x(), pos.x as int) == grown_max(
                    before.spec_max_x(),
                    pos.x as int,
                ),
                self.extends(&before),
            decreases 2 * vstd::math::abs(pos.x as int) + 4 - self.spec_max_x(),
        {
            self.expand_x();
        }
    }

    /// The item at index `i` of row `j`, to read or to write.
    fn slot(&mut self, j: usize, i: usize) -> (value: &mut T)
        requires
            j < old(self).rows.len(),
            i < old(self).rows[j as int].len(),
        ensures
            *value == old(self).rows[j as int][i as int],
            final(self).width == old(self).width,
            final(self).rows.len() == old(self).rows.len(),
            forall|k: int|
                0 <= k < old(self).rows.len() && k != j ==> #[trigger] final(self).rows[k] == old(
                    self,
                ).rows[k],
            final(self).rows[j as int]@ == old(self).rows[j as int]@.update(
                i as int,
                *final(value),
            ),
    {
        &mut self.rows[j][i]
    }

    /// The cell at `pos`, to read or to write. The grid first grows until it
    /// holds `pos`; a cell that it did not hold before starts as a default
    /// value. No other cell that it held changes.
    pub fn get_mut(&mut self, pos: I2) -> (value: &mut T)
        requires
            old(self).wf(),
            -COORD_LIMIT < pos.x < COORD_LIMIT,
            -COORD_LIMIT < pos.y < COORD_LIMIT,
        ensures
            old(self).contains(pos.x as int, pos.y as int) ==> *value == old(self).cell(
                pos.x as int,
                pos.y as int,
            ),
            !old(self).contains(pos.x as int, pos.y as int) ==> is_default(*value),
            final(self).after_write(old(self), pos.x as int, pos.y as int, *final(value)),
    {
        self.ensure_contains(pos);
        let y_index = ((self.rows.len() / 2) as i32 + pos.y) as usize;
        let x_index = ((self.width / 2) as i32 + pos.x) as usize;
        self.slot(y_index, x_index)
    }

    /// A copy of the value at `pos`. The grid first grows until it holds
    /// `pos`; a cell that it did not hold before reads as a default value.
    pub fn get(&mut self, pos: I2) -> (value: T)
        requires
            old(self).wf(),
            -COORD_LIMIT < pos.x < COORD_LIMIT,
            -COORD_LIMIT < pos.y < COORD_LIMIT,
        ensures
            final(self).after_read(old(self), pos.x as int, pos.y as int, value),
    {
        let cell = self.get_mut(pos);
        cell.clone()
    }
}

/// An axis that has grown for `c` holds `c`, and has not shrunk.
pub proof fn lemma_grown_max_holds(max: int, c: int)
    requires
        0 <= max,
    ensures
        axis_holds(grown_max(max, c), c),
        grown_max(max, c) >= max,
    decreases 2 * vstd::math::abs(c) + 4 - max,
{
    if !axis_holds(max, c) {
        lemma_grown_max_holds(next_max(max), c);
    }
}

/// One access to a grid, as the grid's functions tell of it: a read of the
/// cell at `(x, y)` that gave `result`, or a write that left `value` in the
/// cell at `(x, y)`.
pub enum Access<T> {
    Read { x: int, y: int, result: T },
    Write { x: int, y: int, value: T },
}

impl<T> Access<T> {
    /// The column of the cell that was asked for.
    pub open spec fn x(self) -> int {
        match self {
            Access::Read { x, .. } => x,
            Access::Write { x, .. } => x,
        }
    }

    /// The row of the cell that was asked for.
    pub open spec fn y(self) -> int {
        match self {
            Access::Read { y, .. } => y,
            Access::Write { y, .. } => y,
        }
    }

    /// Whether the access writes to the cell at `(x, y)`.
    pub open spec fn writes_to(self, x: int, y: int) -> bool {
        self is Write && self.x() == x && self.y() == y
    }
}

/// Whether `new` is the grid `old` after the access `access`.
pub open spec fn is_access<T: Clone + Default>(
    old: DenseGrid<T>,
    access: Access<T>,
    new: DenseGrid<T>,
) -> bool {
    match access {
        Access::Read { x, y, result } => new.after_read(&old, x, y, result),
        Access::Write { x, y, value } => new.after_write(&old, x, y, value),
    }
}

/// Whether `grids` is a run of the accesses `accesses` on a grid in order:
/// each grid but the first is the grid before it after the next access.
pub open spec fn is_access_run<T: Clone + Default>(
    grids: Seq<DenseGrid<T>>,
    accesses: Seq<Access<T>>,
) -> bool {
    &&& grids.len() == accesses.len() + 1
    &&& grids[0].wf()
    &&& forall|k: int|
        0 <= k < accesses.len() ==> is_access(grids[k], accesses[k], #[trigger] grids[k + 1])
}

/// A grid holds every coordinate that was ever asked for, whatever was
/// asked for later: after a run of accesses the coordinate of each of them
/// lies within the reach of the last grid, along x and along y.
pub proof fn lemma_written_stays_in_reach<T: Clone + Default>(
    grids: Seq<DenseGrid<T>>,
    accesses: Seq<Access<T>>,
    i: int,
)
    requires
        is_access_run(grids, accesses),
        0 <= i < accesses.len(),
    ensures
        grids.last().contains(accesses[i].x(), accesses[i].y()),
        -grids.last().spec_max_x() < accesses[i].x() < grids.last().spec_max_x(),
        -grids.last().spec_max_y() < accesses[i].y() < grids.last().spec_max_y(),
{
    assert(is_access(grids[i], accesses[i], grids[i + 1]));
    let later = grids.subrange(i + 1, grids.len() as int);
    let rest = accesses.subrange(i + 1, accesses.len() as int);
    assert forall|k: int| 0 <= k < rest.len() implies is_access(
        later[k],
        rest[k],
        #[trigger] later[k + 1],
    ) by {
        assert(is_access(grids[i + 1 + k], accesses[i + 1 + k], grids[(i + 1 + k) + 1]));
    }
    lemma_run_keeps_cells(later, rest, accesses[i].x(), accesses[i].y(), rest.len() as int);
    assert(later[rest.len() as int] == grids.last());
}

/// A cell that a grid holds is held after any run of accesses, and has the
/// value that it had as long as no access of the run writes to it.
pub proof fn lemma_run_keeps_cells<T: Clone + Default>(
    grids: Seq<DenseGrid<T>>,
    accesses: Seq<Access<T>>,
    x: int,
    y: int,
    n: int,
)
    requires
        grids.len() == accesses.len() + 1,
        grids[0].wf(),
        forall|k: int|
            0 <= k < accesses.len() ==> is_access(grids[k], accesses[k], #[trigger] grids[k + 1]),
        grids[0].contains(x, y),
        0 <= n < grids.len(),
    ensures
        grids[n].wf(),
        grids[n].contains(x, y),
        (forall|k: int| 0 <= k < n ==> !(#[trigger] accesses[k]).writes_to(x, y)) ==> grids[n].cell(
            x,
            y,
        ) == grids[0].cell(x, y),
    decreases n,
{
    if n > 0 {
        lemma_run_keeps_cells(grids, accesses, x, y, n - 1);
        assert(is_access(grids[n - 1], accesses[n - 1], grids[(n - 1) + 1]));
        grids[n - 1].lemma_reach_in_limit();
        lemma_grown_max_holds(grids[n - 1].spec_max_x(), accesses[n - 1].x());
        lemma_grown_max_holds(grids[n - 1].spec_max_y(), accesses[n - 1].y());
        if forall|k: int| 0 <= k < n ==> !(#[trigger] accesses[k]).writes_to(x, y) {
            assert(!accesses[n - 1].writes_to(x, y));
            assert(grids[n].keeps(&grids[n - 1], x, y));
        }
    }
}

/// What is written at a coordinate is what is read there later, whatever
/// else is read or written in between, and however the grid grows for it:
/// if `v` was left at `(x, y)` in the first grid of a run of accesses none
/// of which writes to `(x, y)`, and reading `(x, y)` after the run gives `r`
/// and the grid `read`, then `r` is a copy of `v`, and `read` holds `v` at
/// `(x, y)` still.
pub proof fn lemma_read_after_accesses<T: Clone + Default>(
    start: DenseGrid<T>,
    grids: Seq<DenseGrid<T>>,
    accesses: Seq<Access<T>>,
    read: DenseGrid<T>,
    x: int,
    y: int,
    v: T,
    r: T,
)
    requires
        grids.len() == accesses.len() + 1,
        grids[0].after_write(&start, x, y, v),
        forall|k: int|
            0 <= k < accesses.len() ==> is_access(grids[k], accesses[k], #[trigger] grids[k + 1]),
        forall|k: int| 0 <= k < accesses.len() ==> !(#[trigger] accesses[k]).writes_to(x, y),
        read.after_read(&grids.last(), x, y, r),
    ensures
        read.cell(x, y) == v,
        cloned(v, r),
{
    lemma_run_keeps_cells(grids, accesses, x, y, accesses.len() as int);
    assert(read.keeps(&grids.last(), x, y));
}

/// What is written at a coordinate is what is read there next: if `written`
/// is a grid in which `v` was left at `(x, y)`, and reading `(x, y)` from it
/// gives `r` and the grid `read`, then `r` is a copy of `v`, and `read` holds
/// `v` at `(x, y)` still.
pub proof fn lemma_read_after_write<T: Clone + Default>(
    start: DenseGrid<T>,
    written: DenseGrid<T>,
    read: DenseGrid<T>,
    x: int,
    y: int,
    v: T,
    r: T,
)
    requires
        written.after_write(&start, x, y, v),
        read.after_read(&written, x, y, r),
    ensures
        read.cell(x, y) == v,
        cloned(v, r),
        read.spec_max_x() == written.spec_max_x(),
        read.spec_max_y() == written.spec_max_y(),
{
}

} // verus!
