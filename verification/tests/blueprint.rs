use rope_lib::blueprint::Blueprint;
use rope_lib::dense_grid::{LocalPoint, I2};
use rope_lib::structure::{CellState, IntermediateStructure};

fn at(x: i64, y: i64) -> LocalPoint {
    LocalPoint { twice_x: 2 * x, twice_y: 2 * y }
}

#[test]
fn empty_blueprint_has_nothing() {
    let blue = Blueprint::default();
    assert!(blue.nodes().is_empty());
    assert!(blue.ropes().is_empty());
}

#[test]
fn corner_gets_one_node() {
    let mut blue = Blueprint::default();
    blue.try_add_node(I2::new(2, 0));
    blue.try_add_node(I2::new(2, 1));
    blue.try_add_node(I2::new(2, 0));
    blue.try_add_node(I2::new(-2, 0));
    assert_eq!(blue.nodes(), &vec![(at(2, 0), true), (at(2, 1), false), (at(-2, 0), true)]);
}

#[test]
fn node_off_the_grid_is_always_new() {
    let mut blue = Blueprint::default();
    let apex = LocalPoint { twice_x: 1, twice_y: 2 };
    assert_eq!(blue.add_off_grid(apex), 0);
    assert_eq!(blue.add_off_grid(apex), 1);
    let grounded = LocalPoint { twice_x: 3, twice_y: 0 };
    assert_eq!(blue.add_off_grid(grounded), 2);
    assert_eq!(blue.nodes(), &vec![(apex, false), (apex, false), (grounded, true)]);
}

#[test]
fn rope_is_stored_once_for_a_pair() {
    let mut blue = Blueprint::default();
    blue.try_add_node(I2::new(0, 0));
    blue.try_add_node(I2::new(1, 0));
    blue.try_add_node(I2::new(0, 1));
    blue.try_add_rope_ids(0, 1, true);
    blue.try_add_rope_ids(0, 1, true);
    assert_eq!(blue.ropes(), &vec![(0, 1, true)]);
    // the other direction, and another flag: the first rope stays
    blue.try_add_rope_ids(1, 0, false);
    assert_eq!(blue.ropes(), &vec![(0, 1, true)]);
    blue.try_add_rope_ids(2, 1, false);
    blue.try_add_rope_ids(1, 2, true);
    assert_eq!(blue.ropes(), &vec![(0, 1, true), (2, 1, false)]);
}

#[test]
fn rope_is_stored_once_for_any_two_indices() {
    // the blueprint has no node: the indices are taken as they come
    let mut blue = Blueprint::default();
    blue.try_add_rope_ids(0, 1, true);
    blue.try_add_rope_ids(1, 0, false);
    assert_eq!(blue.ropes(), &vec![(0, 1, true)]);
    blue.try_add_rope_ids(usize::MAX, 0, false);
    blue.try_add_rope_ids(0, usize::MAX, true);
    blue.try_add_rope_ids(usize::MAX, usize::MAX - 1, true);
    assert_eq!(
        blue.ropes(),
        &vec![(0, 1, true), (usize::MAX, 0, false), (usize::MAX, usize::MAX - 1, true)]
    );
    assert!(!blue.ropes_fit());
}

#[test]
fn rope_from_any_index_to_itself_is_refused() {
    let mut blue = Blueprint::default();
    for index in [0, 1, 7, usize::MAX] {
        blue.try_add_rope_ids(index, index, true);
        blue.try_add_rope_ids(index, index, false);
    }
    assert!(blue.ropes().is_empty());
    assert!(blue.ropes_fit());
}

#[test]
fn ropes_fit_where_they_join_nodes() {
    let mut blue = Blueprint::default();
    assert!(blue.ropes_fit());
    blue.try_add_node(I2::new(0, 0));
    blue.try_add_node(I2::new(1, 0));
    blue.try_add_rope_ids(0, 1, true);
    assert!(blue.ropes_fit());
    blue.try_add_rope_pos_id(I2::new(0, 0), 2, true);
    assert_eq!(blue.ropes(), &vec![(0, 1, true), (0, 2, true)]);
    assert!(!blue.ropes_fit());
    // the node comes later
    blue.add_off_grid(LocalPoint { twice_x: 1, twice_y: 2 });
    assert!(blue.ropes_fit());
}

#[test]
fn rope_from_a_node_to_itself_is_refused() {
    let mut blue = Blueprint::default();
    blue.try_add_node(I2::new(0, 0));
    blue.try_add_rope_ids(0, 0, true);
    blue.try_add_rope(I2::new(0, 0), I2::new(0, 0), true);
    assert!(blue.ropes().is_empty());
}

#[test]
fn rope_needs_a_node_at_both_corners() {
    let mut blue = Blueprint::default();
    blue.try_add_node(I2::new(0, 0));
    blue.try_add_node(I2::new(1, 0));
    blue.try_add_rope(I2::new(0, 0), I2::new(5, 5), true);
    blue.try_add_rope(I2::new(5, 5), I2::new(0, 0), true);
    assert!(blue.ropes().is_empty());
    blue.try_add_rope(I2::new(1, 0), I2::new(0, 0), false);
    assert_eq!(blue.ropes(), &vec![(1, 0, false)]);
    blue.try_add_rope(I2::new(0, 0), I2::new(1, 0), true);
    assert_eq!(blue.ropes(), &vec![(1, 0, false)]);
    // looking for a node makes none
    assert_eq!(blue.nodes().len(), 2);
}

#[test]
fn rope_from_a_corner_to_a_node() {
    let mut blue = Blueprint::default();
    blue.try_add_node(I2::new(0, 0));
    let apex = blue.add_off_grid(LocalPoint { twice_x: 1, twice_y: 2 });
    blue.try_add_rope_pos_id(I2::new(3, 3), apex, true);
    assert!(blue.ropes().is_empty());
    blue.try_add_rope_pos_id(I2::new(0, 0), apex, true);
    blue.try_add_rope_pos_id(I2::new(0, 0), apex, false);
    assert_eq!(blue.ropes(), &vec![(0, 1, true)]);
}

#[test]
fn unset_cells_are_empty() {
    let mut structure = IntermediateStructure::default();
    assert!(!structure.is_solid(I2::new(0, 0)));
    assert!(!structure.is_solid(I2::new(-30, 12)));
}

#[test]
fn cells_far_away_are_empty() {
    let mut structure = IntermediateStructure::default();
    structure.set(I2::new(1, 1), CellState::EdgeBlock);
    assert!(!structure.is_solid(I2::new(i32::MAX, i32::MIN)));
    assert!(!structure.is_solid(I2::new(i32::MIN, i32::MAX)));
    assert!(!structure.is_solid(I2::new(0, 1_000_000_000)));
    assert!(structure.is_solid(I2::new(1, 1)));
}

#[test]
fn set_cell_is_solid_unless_empty() {
    let mut structure = IntermediateStructure::default();
    structure.set(I2::new(1, 2), CellState::Roof);
    structure.set(I2::new(-1, 2), CellState::EdgeBlock);
    structure.set(I2::new(0, 0), CellState::Scaffolding);
    assert!(structure.is_solid(I2::new(1, 2)));
    assert!(structure.is_solid(I2::new(-1, 2)));
    assert!(structure.is_solid(I2::new(0, 0)));
    assert!(!structure.is_solid(I2::new(2, 1)));
    structure.set(I2::new(1, 2), CellState::Empty);
    assert!(!structure.is_solid(I2::new(1, 2)));
}

#[test]
fn block_sets_its_cells_and_no_other() {
    let mut structure = IntermediateStructure::default();
    structure.set_block(I2::new(-2, 1), I2::new(3, 2), CellState::EdgeBlock);
    for x in -4..5 {
        for y in -2..6 {
            let inside = -2 <= x && x < 1 && 1 <= y && y < 3;
            assert_eq!(structure.is_solid(I2::new(x, y)), inside);
        }
    }
}

#[test]
fn block_without_rows_or_columns_sets_nothing() {
    let mut structure = IntermediateStructure::default();
    structure.set_block(I2::new(0, 0), I2::new(0, 5), CellState::EdgeBlock);
    structure.set_block(I2::new(0, 0), I2::new(5, 0), CellState::EdgeBlock);
    structure.set_block(I2::new(0, 0), I2::new(-1, -1), CellState::EdgeBlock);
    for x in -2..7 {
        for y in -2..7 {
            assert!(!structure.is_solid(I2::new(x, y)));
        }
    }
    assert!(structure.to_blueprint().nodes().is_empty());
}

#[test]
fn empty_structure_gives_empty_blueprint() {
    let mut structure = IntermediateStructure::default();
    let blue = structure.to_blueprint();
    assert!(blue.nodes().is_empty());
    assert!(blue.ropes().is_empty());
}

#[test]
fn lone_edge_block_is_a_braced_square() {
    let mut structure = IntermediateStructure::default();
    structure.set(I2::new(0, 0), CellState::EdgeBlock);
    let blue = structure.to_blueprint();
    assert!(blue.ropes_fit());
    assert_eq!(
        blue.nodes(),
        &vec![(at(0, 0), true), (at(1, 0), true), (at(0, 1), false), (at(1, 1), false)]
    );
    assert_eq!(
        blue.ropes(),
        &vec![
            (2, 1, true),
            (0, 3, true),
            (2, 3, true),
            (0, 1, true),
            (2, 0, true),
            (3, 1, true),
        ]
    );
}

#[test]
fn shared_sides_of_edge_blocks_are_hidden_but_for_the_top() {
    // two edge blocks side by side, and one on the left one
    let mut structure = IntermediateStructure::default();
    structure.set(I2::new(0, 0), CellState::EdgeBlock);
    structure.set(I2::new(1, 0), CellState::EdgeBlock);
    structure.set(I2::new(0, 1), CellState::EdgeBlock);
    let blue = structure.to_blueprint();
    assert_eq!(
        blue.nodes(),
        &vec![
            (at(0, 0), true),
            (at(1, 0), true),
            (at(0, 1), false),
            (at(1, 1), false),
            (at(0, 2), false),
            (at(1, 2), false),
            (at(2, 0), true),
            (at(2, 1), false),
        ]
    );
    assert_eq!(
        blue.ropes(),
        &vec![
            // cell (0, 0): the neighbour on the right is an edge block
            (2, 1, true),
            (0, 3, true),
            (2, 3, true),
            (0, 1, true),
            (2, 0, true),
            (3, 1, false),
            // cell (0, 1): its bottom is the top of the cell below, kept
            (4, 3, true),
            (2, 5, true),
            (4, 5, true),
            (4, 2, true),
            (5, 3, true),
            // cell (1, 0): its left is the right of the first cell, kept
            (3, 6, true),
            (1, 7, true),
            (3, 7, true),
            (1, 6, true),
            (7, 6, true),
        ]
    );
}

#[test]
fn scaffolding_draws_every_rope() {
    let mut structure = IntermediateStructure::default();
    structure.set(I2::new(0, 0), CellState::Scaffolding);
    structure.set(I2::new(1, 0), CellState::EdgeBlock);
    structure.set(I2::new(0, 1), CellState::Roof);
    let blue = structure.to_blueprint();
    let first_six: Vec<(usize, usize, bool)> = blue.ropes()[..6].to_vec();
    assert_eq!(
        first_six,
        vec![(2, 1, true), (0, 3, true), (2, 3, true), (0, 1, true), (2, 0, true), (3, 1, true)]
    );
}

#[test]
fn roof_hides_the_top_of_the_block_below() {
    let mut structure = IntermediateStructure::default();
    structure.set(I2::new(0, 0), CellState::EdgeBlock);
    structure.set(I2::new(0, 1), CellState::Roof);
    let blue = structure.to_blueprint();
    assert_eq!(
        blue.nodes(),
        &vec![
            (at(0, 0), true),
            (at(1, 0), true),
            (at(0, 1), false),
            (at(1, 1), false),
            (LocalPoint { twice_x: 1, twice_y: 4 }, false),
        ]
    );
    assert_eq!(
        blue.ropes(),
        &vec![
            (2, 1, true),
            (0, 3, true),
            // the top, hidden under the roof; the roof's own bottom side
            // is this rope, and comes too late to be drawn
            (2, 3, false),
            (0, 1, true),
            (2, 0, true),
            (3, 1, true),
            (2, 4, true),
            (3, 4, true),
        ]
    );
}

#[test]
fn lone_roof_is_a_triangle() {
    let mut structure = IntermediateStructure::default();
    structure.set(I2::new(-2, 0), CellState::Roof);
    let blue = structure.to_blueprint();
    assert_eq!(
        blue.nodes(),
        &vec![
            (at(-2, 0), true),
            (at(-1, 0), true),
            (LocalPoint { twice_x: -3, twice_y: 2 }, false),
        ]
    );
    assert_eq!(blue.ropes(), &vec![(0, 1, true), (0, 2, true), (1, 2, true)]);
}

#[test]
fn cells_below_the_ground_have_no_geometry() {
    let mut structure = IntermediateStructure::default();
    structure.set(I2::new(0, -1), CellState::EdgeBlock);
    structure.set(I2::new(1, -2), CellState::Roof);
    let blue = structure.to_blueprint();
    assert!(blue.nodes().is_empty());
    assert!(blue.ropes().is_empty());
}

#[test]
fn edge_block_on_the_ground_hides_its_bottom_over_a_buried_block() {
    let mut structure = IntermediateStructure::default();
    structure.set(I2::new(0, -1), CellState::EdgeBlock);
    structure.set(I2::new(0, 0), CellState::EdgeBlock);
    let blue = structure.to_blueprint();
    assert_eq!(blue.ropes()[3], (0, 1, false));
    assert_eq!(blue.ropes().len(), 6);
}

#[test]
fn columns_are_scanned_from_left_to_right() {
    let mut structure = IntermediateStructure::default();
    structure.set(I2::new(3, 0), CellState::Roof);
    structure.set(I2::new(-3, 0), CellState::Roof);
    let blue = structure.to_blueprint();
    assert_eq!(blue.nodes()[0], (at(-3, 0), true));
    assert_eq!(blue.nodes()[3], (at(3, 0), true));
    assert_eq!(blue.nodes().len(), 6);
}

#[test]
fn blueprint_leaves_the_cells_as_they_are() {
    let mut structure = IntermediateStructure::default();
    structure.set(I2::new(0, 0), CellState::EdgeBlock);
    let first = structure.to_blueprint();
    let second = structure.to_blueprint();
    assert_eq!(first.nodes(), second.nodes());
    assert_eq!(first.ropes(), second.ropes());
    for _ in 0..40 {
        let again = structure.to_blueprint();
        assert_eq!(first.ropes(), again.ropes());
    }
    assert!(structure.is_solid(I2::new(0, 0)));
    assert!(!structure.is_solid(I2::new(1, 0)));
}
