use snake::cells::CellSet;
use snake::food::{
    can_run_spawn, cell_from_draws, first_free_cell, maybe_replenish, offset_of,
    place_from_draws, spawn, FoodPlugin,
};
use snake::grid::{GridConfig, PositionInGrid};
use snake::snake::snake_setup;

fn cell(x: i32, y: i32) -> PositionInGrid {
    PositionInGrid { x, y }
}

#[test]
fn offset_of_a_draw_is_its_shifted_remainder() {
    assert_eq!(offset_of(i32::MIN, 10), 0);
    assert_eq!(offset_of(-1, 10), 7);
    assert_eq!(offset_of(0, 10), 8);
    assert_eq!(offset_of(1, 10), 9);
    assert_eq!(offset_of(2, 10), 0);
    assert_eq!(offset_of(i32::MAX, 10), 5);
    assert_eq!(offset_of(12345, 1), 0);
    assert_eq!(offset_of(i32::MAX, 0x4000_0000), 0x3fff_ffff);
}

#[test]
fn cell_from_draws_lies_on_the_grid() {
    let grid = GridConfig::default();
    assert_eq!(cell_from_draws(&grid, (0, 2)), cell(3, -5));
    assert_eq!(cell_from_draws(&grid, (1, i32::MIN)), cell(4, -5));
    assert_eq!(cell_from_draws(&grid, (-1, i32::MAX)), cell(2, 0));
    let narrow = GridConfig { width: 1, height: 3 };
    assert_eq!(cell_from_draws(&narrow, (77, 0)), cell(0, 1));
}

#[test]
fn place_from_draws_passes_over_occupied_cells() {
    let grid = GridConfig::default();
    let occupied = CellSet::from_positions(&vec![cell(3, 3)]);
    let draws = vec![(0, 0), (2, 1), (0, 0), (1, 2)];
    let food = place_from_draws(&occupied, &grid, 3, &draws);
    assert_eq!(food, vec![cell(-5, 4), cell(4, -5)]);
}

#[test]
fn place_from_draws_stops_at_a_full_batch() {
    let grid = GridConfig::default();
    let occupied = CellSet::new();
    let draws = vec![(0, 0), (2, 1), (1, 2)];
    assert_eq!(place_from_draws(&occupied, &grid, 2, &draws), vec![cell(3, 3), cell(-5, 4)]);
    assert_eq!(place_from_draws(&occupied, &grid, 0, &draws), vec![]);
    assert_eq!(place_from_draws(&occupied, &grid, 2, &vec![]), vec![]);
}

#[test]
fn place_from_draws_may_place_food_twice_on_a_cell() {
    let grid = GridConfig::default();
    let occupied = CellSet::new();
    let draws = vec![(2, 1), (2, 1)];
    assert_eq!(place_from_draws(&occupied, &grid, 3, &draws), vec![cell(-5, 4), cell(-5, 4)]);
}

#[test]
fn spawn_places_food_off_the_snake() {
    let grid = GridConfig::default();
    let snake = snake_setup(5);
    let occupied = snake.occupied_cells();
    let config = FoodPlugin { food_num: 3, max_draws: 100_000 };
    for _ in 0..50 {
        let food = spawn(&occupied, &grid, &config);
        assert_eq!(food.len(), 3);
        for piece in food.iter() {
            assert!(grid.in_bounds(piece));
            assert!(!occupied.has(piece));
        }
    }
}

#[test]
fn spawn_reaches_every_free_cell_of_a_small_grid() {
    let grid = GridConfig { width: 2, height: 1 };
    let occupied = CellSet::from_positions(&vec![cell(0, 0)]);
    let config = FoodPlugin { food_num: 4, max_draws: 100_000 };
    let food = spawn(&occupied, &grid, &config);
    assert_eq!(food, vec![cell(-1, 0), cell(-1, 0), cell(-1, 0), cell(-1, 0)]);
}

#[test]
fn spawn_places_nothing_on_a_full_grid() {
    let grid = GridConfig { width: 1, height: 1 };
    let full = CellSet::from_positions(&vec![cell(0, 0)]);
    let config = FoodPlugin { food_num: 3, max_draws: 200 };
    assert_eq!(spawn(&full, &grid, &config), vec![]);
    let none = FoodPlugin { food_num: 3, max_draws: 0 };
    assert_eq!(spawn(&full, &grid, &none), vec![]);
}

#[test]
fn spawn_fills_the_batch_when_the_draws_run_out() {
    let grid = GridConfig::default();
    let free = CellSet::new();
    let none = FoodPlugin { food_num: 3, max_draws: 0 };
    assert_eq!(spawn(&free, &grid, &none), vec![cell(-5, -5), cell(-5, -5), cell(-5, -5)]);
    let two = FoodPlugin { food_num: 3, max_draws: 2 };
    let food = spawn(&free, &grid, &two);
    assert_eq!(food.len(), 3);
    assert_eq!(food[2], cell(-5, -5));
    let corner = CellSet::from_positions(&vec![cell(-5, -5), cell(-4, -5)]);
    assert_eq!(spawn(&corner, &grid, &none), vec![cell(-3, -5), cell(-3, -5), cell(-3, -5)]);
}

#[test]
fn spawn_finds_the_one_free_cell() {
    let grid = GridConfig { width: 2, height: 2 };
    let occupied = CellSet::from_positions(&vec![cell(-1, -1), cell(0, -1), cell(-1, 0)]);
    for max_draws in 0..20 {
        let config = FoodPlugin { food_num: 2, max_draws };
        assert_eq!(spawn(&occupied, &grid, &config), vec![cell(0, 0), cell(0, 0)]);
    }
}

#[test]
fn first_free_cell_goes_by_rows_from_the_bottom_left() {
    let grid = GridConfig { width: 2, height: 2 };
    assert_eq!(first_free_cell(&CellSet::new(), &grid), Some(cell(-1, -1)));
    let one = CellSet::from_positions(&vec![cell(-1, -1)]);
    assert_eq!(first_free_cell(&one, &grid), Some(cell(0, -1)));
    let row = CellSet::from_positions(&vec![cell(-1, -1), cell(0, -1)]);
    assert_eq!(first_free_cell(&row, &grid), Some(cell(-1, 0)));
    let gap = CellSet::from_positions(&vec![cell(-1, -1), cell(-1, 0), cell(0, 0)]);
    assert_eq!(first_free_cell(&gap, &grid), Some(cell(0, -1)));
    let all = CellSet::from_positions(&vec![cell(-1, -1), cell(0, -1), cell(-1, 0), cell(0, 0)]);
    assert_eq!(first_free_cell(&all, &grid), None);
    let off_grid = CellSet::from_positions(&vec![cell(5, 5)]);
    assert_eq!(first_free_cell(&off_grid, &grid), Some(cell(-1, -1)));
}

#[test]
fn spawn_of_no_food_places_none() {
    let config = FoodPlugin { food_num: 0, max_draws: 10 };
    assert_eq!(spawn(&CellSet::new(), &GridConfig::default(), &config), vec![]);
}

#[test]
fn new_batch_is_due_only_without_food() {
    assert!(can_run_spawn(&vec![]));
    assert!(!can_run_spawn(&vec![cell(1, 1)]));
}

#[test]
fn maybe_replenish_leaves_remaining_food_alone() {
    let grid = GridConfig::default();
    let occupied = snake_setup(5).occupied_cells();
    let config = FoodPlugin { food_num: 3, max_draws: 100_000 };
    let mut food = vec![cell(2, 2)];
    maybe_replenish(&mut food, &occupied, &grid, &config);
    assert_eq!(food, vec![cell(2, 2)]);
}

#[test]
fn maybe_replenish_fills_an_empty_grid() {
    let grid = GridConfig::default();
    let occupied = snake_setup(5).occupied_cells();
    let config = FoodPlugin { food_num: 3, max_draws: 100_000 };
    let mut food = vec![];
    maybe_replenish(&mut food, &occupied, &grid, &config);
    assert_eq!(food.len(), 3);
    for piece in food.iter() {
        assert!(grid.in_bounds(piece));
        assert!(!occupied.has(piece));
    }
}
