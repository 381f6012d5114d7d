use rope_lib::dense_grid::{DenseGrid, LocalPoint, I2};

#[test]
fn point_keeps_its_coordinates() {
    let p = I2::new(3, -7);
    assert_eq!(p.x, 3);
    assert_eq!(p.y, -7);
    assert_eq!(p, I2 { x: 3, y: -7 });
}

#[test]
fn points_add_by_coordinate() {
    let sum = I2::new(1, 2) + I2::new(3, -4);
    assert_eq!(sum, I2::new(4, -2));
}

#[test]
fn blueprint_position_is_doubled() {
    assert_eq!(I2::new(3, -2).to_v2(), LocalPoint { twice_x: 6, twice_y: -4 });
    assert_eq!(I2::new(0, 0).to_v2(), LocalPoint { twice_x: 0, twice_y: 0 });
    assert_eq!(
        I2::new(i32::MAX, i32::MIN).to_v2(),
        LocalPoint { twice_x: 2 * (i32::MAX as i64), twice_y: 2 * (i32::MIN as i64) }
    );
}

#[test]
fn empty_grid_reaches_nowhere() {
    let grid: DenseGrid<i32> = DenseGrid::default();
    assert_eq!(grid.max_x(), 0);
    assert_eq!(grid.max_y(), 0);
}

#[test]
fn first_access_grows_both_sides_to_eight() {
    let mut grid: DenseGrid<i32> = DenseGrid::default();
    assert_eq!(grid.get(I2::new(0, 0)), 0);
    assert_eq!(grid.max_x(), 4);
    assert_eq!(grid.max_y(), 4);
}

#[test]
fn a_side_doubles_until_the_coordinate_fits() {
    let mut grid: DenseGrid<i32> = DenseGrid::default();
    grid.get(I2::new(3, 0));
    assert_eq!(grid.max_x(), 4);
    // 4 itself is outside a reach of 4
    grid.get(I2::new(4, 0));
    assert_eq!(grid.max_x(), 8);
    assert_eq!(grid.max_y(), 4);
    grid.get(I2::new(-8, 0));
    assert_eq!(grid.max_x(), 16);
    grid.get(I2::new(0, 100));
    assert_eq!(grid.max_y(), 128);
    assert_eq!(grid.max_x(), 16);
    // nothing shrinks
    grid.get(I2::new(0, 0));
    assert_eq!(grid.max_x(), 16);
    assert_eq!(grid.max_y(), 128);
}

#[test]
fn unwritten_cell_reads_as_default() {
    let mut grid: DenseGrid<Option<usize>> = DenseGrid::default();
    assert_eq!(grid.get(I2::new(5, -9)), None);
    let mut numbers: DenseGrid<i32> = DenseGrid::default();
    assert_eq!(numbers.get(I2::new(-17, 33)), 0);
}

#[test]
fn written_value_is_read_back() {
    let mut grid: DenseGrid<i32> = DenseGrid::default();
    *grid.get_mut(I2::new(2, -3)) = 42;
    assert_eq!(grid.get(I2::new(2, -3)), 42);
    assert_eq!(*grid.get_mut(I2::new(2, -3)), 42);
    assert_eq!(grid.get(I2::new(-3, 2)), 0);
}

#[test]
fn diagonal_writes_are_read_back_and_within_reach() {
    let mut grid: DenseGrid<i32> = DenseGrid::default();
    for k in 0..200 {
        *grid.get_mut(I2::new(k, k)) = k + 1;
        assert_eq!(grid.get(I2::new(k, k)), k + 1);
        assert!(k < grid.max_x());
        assert!(k < grid.max_y());
    }
    for k in 0..200 {
        assert_eq!(grid.get(I2::new(k, k)), k + 1);
        assert!(k < grid.max_x());
        assert!(k < grid.max_y());
    }
    assert_eq!(grid.max_x(), 256);
    assert_eq!(grid.max_y(), 256);
}

#[test]
fn growth_keeps_every_cell_in_place() {
    let mut grid: DenseGrid<i32> = DenseGrid::default();
    let mut n = 0;
    for x in -3..4 {
        for y in -3..4 {
            n += 1;
            *grid.get_mut(I2::new(x, y)) = n;
        }
    }
    assert_eq!(grid.max_x(), 4);
    // grow along x alone, then along y, several times over
    grid.get(I2::new(-40, 0));
    grid.get(I2::new(0, 1000));
    assert_eq!(grid.max_x(), 64);
    assert_eq!(grid.max_y(), 1024);
    let mut n = 0;
    for x in -3..4 {
        for y in -3..4 {
            n += 1;
            assert_eq!(grid.get(I2::new(x, y)), n);
        }
    }
    // what lies around the old contents is default
    assert_eq!(grid.get(I2::new(-4, 0)), 0);
    assert_eq!(grid.get(I2::new(4, 4)), 0);
    assert_eq!(grid.get(I2::new(0, -4)), 0);
    assert_eq!(grid.get(I2::new(63, 1023)), 0);
}

#[test]
fn written_value_outlasts_other_accesses() {
    let mut grid: DenseGrid<i32> = DenseGrid::default();
    *grid.get_mut(I2::new(2, -3)) = 42;
    // reads and writes elsewhere, some of which make the grid grow
    assert_eq!(grid.get(I2::new(2, -3)), 42);
    *grid.get_mut(I2::new(2, -2)) = 1;
    *grid.get_mut(I2::new(-2, 3)) = 2;
    assert_eq!(grid.get(I2::new(500, 0)), 0);
    *grid.get_mut(I2::new(0, -700)) = 3;
    assert_eq!(*grid.get_mut(I2::new(3, -3)), 0);
    *grid.get_mut(I2::new(1, -3)) = 4;
    assert_eq!(grid.get(I2::new(-1000, 1000)), 0);
    assert_eq!(grid.get(I2::new(2, -3)), 42);
    assert_eq!(grid.get(I2::new(0, -700)), 3);
    // a write to the cell itself is what changes it
    *grid.get_mut(I2::new(2, -3)) = 43;
    assert_eq!(grid.get(I2::new(2, -3)), 43);
}

#[test]
fn negative_coordinates_are_cells_of_their_own() {
    let mut grid: DenseGrid<i32> = DenseGrid::default();
    *grid.get_mut(I2::new(-5, -6)) = 1;
    *grid.get_mut(I2::new(5, 6)) = 2;
    *grid.get_mut(I2::new(-5, 6)) = 3;
    *grid.get_mut(I2::new(5, -6)) = 4;
    assert_eq!(grid.get(I2::new(-5, -6)), 1);
    assert_eq!(grid.get(I2::new(5, 6)), 2);
    assert_eq!(grid.get(I2::new(-5, 6)), 3);
    assert_eq!(grid.get(I2::new(5, -6)), 4);
    assert_eq!(grid.max_x(), 8);
    assert_eq!(grid.max_y(), 8);
}
