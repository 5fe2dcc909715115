use snake::cells::CellSet;
use snake::grid::{GridConfig, PositionInGrid};
use snake::snake::{snake_setup, Direction, Snake};

fn at(x: i32, y: i32) -> PositionInGrid {
    PositionInGrid { x, y }
}

#[test]
fn setup_lays_the_snake_out_below_the_origin() {
    let snake = snake_setup(5);
    assert_eq!(snake.head, at(0, 0));
    assert_eq!(snake.direction, Direction::Up);
    assert_eq!(snake.parts, vec![at(0, -1), at(0, -2), at(0, -3), at(0, -4), at(0, -5)]);
}

#[test]
fn setup_of_no_length_has_only_the_growth_slot() {
    assert_eq!(snake_setup(0).parts, vec![at(0, 0)]);
    assert_eq!(snake_setup(1).parts, vec![at(0, -1)]);
}

#[test]
fn direction_steps_and_opposites() {
    assert_eq!((Direction::Up.step_x(), Direction::Up.step_y()), (0, 1));
    assert_eq!((Direction::Down.step_x(), Direction::Down.step_y()), (0, -1));
    assert_eq!((Direction::Left.step_x(), Direction::Left.step_y()), (-1, 0));
    assert_eq!((Direction::Right.step_x(), Direction::Right.step_y()), (1, 0));
    assert_eq!(Direction::Up.opposite(), Direction::Down);
    assert_eq!(Direction::Down.opposite(), Direction::Up);
    assert_eq!(Direction::Left.opposite(), Direction::Right);
    assert_eq!(Direction::Right.opposite(), Direction::Left);
}

#[test]
fn reverse_of_the_heading_is_rejected() {
    let mut snake = snake_setup(5);
    snake.direction = Direction::Left;
    assert!(!snake.set_direction(Direction::Right));
    assert_eq!(snake.direction, Direction::Left);
    assert!(snake.set_direction(Direction::Up));
    assert_eq!(snake.direction, Direction::Up);
    snake.direction = Direction::Left;
    assert!(snake.set_direction(Direction::Down));
    assert_eq!(snake.direction, Direction::Down);
}

#[test]
fn same_heading_counts_as_a_change() {
    let mut snake = snake_setup(5);
    assert!(snake.set_direction(Direction::Up));
    assert_eq!(snake.direction, Direction::Up);
    assert!(!snake.set_direction(Direction::Down));
    assert_eq!(snake.direction, Direction::Up);
}

#[test]
fn advance_moves_head_and_ripples_the_chain() {
    let grid = GridConfig::default();
    let mut snake = snake_setup(5);
    let (target, collided) = snake.advance(&grid);
    assert_eq!(target, at(0, 1));
    assert!(!collided);
    assert_eq!(snake.head, at(0, 1));
    assert_eq!(snake.parts, vec![at(0, 0), at(0, -1), at(0, -2), at(0, -3), at(0, -4)]);
}

#[test]
fn every_part_follows_the_one_before_it() {
    let grid = GridConfig::default();
    let mut snake = snake_setup(5);
    snake.direction = Direction::Right;
    for turn in 0..25 {
        if turn % 7 == 3 {
            snake.set_direction(Direction::Up);
        }
        if turn % 7 == 5 {
            snake.set_direction(Direction::Right);
        }
        let head = snake.head;
        let before = snake.parts.clone();
        snake.advance(&grid);
        assert_eq!(snake.parts.len(), before.len());
        assert_eq!(snake.parts[0], head);
        for i in 1..before.len() {
            assert_eq!(snake.parts[i], before[i - 1]);
        }
    }
}

#[test]
fn advance_wraps_the_head_at_the_edge() {
    let grid = GridConfig::default();
    let mut snake = Snake {
        head: at(4, 0),
        direction: Direction::Right,
        parts: vec![at(3, 0), at(2, 0), at(1, 0)],
    };
    let (target, collided) = snake.advance(&grid);
    assert_eq!(target, at(5, 0));
    assert!(!collided);
    assert_eq!(snake.head, at(-5, 0));
    assert_eq!(snake.parts, vec![at(4, 0), at(3, 0), at(2, 0)]);
}

#[test]
fn advance_reports_a_collision_with_the_body() {
    let grid = GridConfig::default();
    let mut snake = Snake {
        head: at(0, 0),
        direction: Direction::Up,
        parts: vec![at(1, 0), at(1, 1), at(0, 1), at(-1, 1), at(-1, 0), at(-1, -1)],
    };
    let (target, collided) = snake.advance(&grid);
    assert_eq!(target, at(0, 1));
    assert!(collided);
}

#[test]
fn last_solid_part_and_growth_slot_do_not_collide() {
    let grid = GridConfig::default();
    let mut onto_last_solid = Snake {
        head: at(0, 0),
        direction: Direction::Up,
        parts: vec![at(1, 0), at(1, 1), at(0, 1), at(-1, 1)],
    };
    assert_eq!(onto_last_solid.advance(&grid), (at(0, 1), false));
    let mut onto_slot = Snake {
        head: at(0, 0),
        direction: Direction::Up,
        parts: vec![at(1, 0), at(1, 1), at(0, 1)],
    };
    assert_eq!(onto_slot.advance(&grid), (at(0, 1), false));
    let mut only_slot = Snake { head: at(0, 0), direction: Direction::Up, parts: vec![at(0, 1)] };
    assert_eq!(only_slot.advance(&grid), (at(0, 1), false));
}

#[test]
fn head_that_leaves_the_grid_does_not_collide() {
    let grid = GridConfig::default();
    let mut snake = Snake {
        head: at(4, 0),
        direction: Direction::Right,
        parts: vec![at(-5, 0), at(-4, 0), at(-3, 0), at(-2, 0)],
    };
    let (target, collided) = snake.advance(&grid);
    assert_eq!(target, at(5, 0));
    assert!(!collided);
    assert_eq!(snake.head, at(-5, 0));
}

#[test]
fn grow_at_adds_one_solid_part_before_the_growth_slot() {
    let mut snake = snake_setup(5);
    snake.grow_at(at(3, 3));
    assert_eq!(
        snake.parts,
        vec![at(0, -1), at(0, -2), at(0, -3), at(0, -4), at(3, 3), at(0, -5)]
    );
    assert_eq!(snake.head, at(0, 0));
    assert_eq!(snake.direction, Direction::Up);
    let mut smallest = Snake { head: at(0, 0), direction: Direction::Left, parts: vec![at(1, 0)] };
    smallest.grow_at(at(2, 0));
    assert_eq!(smallest.parts, vec![at(2, 0), at(1, 0)]);
}

#[test]
fn occupied_cells_are_head_and_solid_parts() {
    let snake = snake_setup(5);
    let cells = snake.occupied_cells();
    assert!(cells.has(&at(0, 0)));
    assert!(cells.has(&at(0, -1)));
    assert!(cells.has(&at(0, -4)));
    assert!(!cells.has(&at(0, -5)));
    assert!(!cells.has(&at(1, 0)));
    assert!(!cells.has(&at(0, 1)));
}

#[test]
fn cell_set_holds_what_was_added() {
    let mut cells = CellSet::new();
    assert!(!cells.has(&at(1, 2)));
    assert!(cells.add(&at(1, 2)));
    assert!(!cells.add(&at(1, 2)));
    assert!(cells.has(&at(1, 2)));
    assert!(!cells.has(&at(2, 1)));
    let listed = CellSet::from_positions(&vec![at(0, 0), at(3, -3), at(0, 0)]);
    assert!(listed.has(&at(0, 0)));
    assert!(listed.has(&at(3, -3)));
    assert!(!listed.has(&at(-3, 3)));
}
