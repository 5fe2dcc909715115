//! The food director: where new food goes, and when.

use vstd::prelude::*;
use crate::cells::CellSet;
use crate::grid::{GridConfig, PositionInGrid, MAX_SIDE};

verus! {

/// How much food a batch holds, and how many random cells may be drawn
/// for one batch before the director puts the rest of it on the first
/// free cell of the grid.
#[derive(Clone, Copy, Debug)]
pub struct FoodPlugin {
    pub food_num: usize,
    pub max_draws: usize,
}

/// `rand::random::<i32>()`: a number from the thread's generator. Nothing
/// is claimed of it: any `i32` may come back.
#[verifier::external_body]
fn random_i32() -> (r: i32) {
    rand::random::<i32>()
}

/// The offset, from 0 to `side - 1`, that a raw draw stands for on an axis
/// of `side` cells.
pub open spec fn spread(raw: i32, side: usize) -> int {
    (raw as int + 0x8000_0000) % (side as int)
}

/// The cell of the grid that a pair of raw draws stands for.
pub open spec fn cell_for(grid: GridConfig, draw: (i32, i32)) -> PositionInGrid {
    PositionInGrid {
        x: (grid.spec_min_x() + spread(draw.0, grid.width)) as i32,
        y: (grid.spec_min_y() + spread(draw.1, grid.height)) as i32,
    }
}

/// The food that a run of draws places: each draw in turn gives a cell,
/// which becomes food if it is free and the batch is not yet full. Food
/// is not checked against the food placed before it in the batch.
pub open spec fn placed(
    occupied: Set<(i32, i32)>,
    grid: GridConfig,
    count: nat,
    draws: Seq<(i32, i32)>,
) -> Seq<PositionInGrid>
    decreases draws.len(),
{
    if draws.len() == 0 {
        Seq::empty()
    } else {
        let before = placed(occupied, grid, count, draws.drop_last());
        let cell = cell_for(grid, draws.last());
        if before.len() < count && !occupied.contains(cell.cell()) {
            before.push(cell)
        } else {
            before
        }
    }
}

/// Food is never placed on an occupied cell, nor off the grid, and a
/// batch never holds more than was asked for.
pub proof fn lemma_placed_is_free(
    occupied: Set<(i32, i32)>,
    grid: GridConfig,
    count: nat,
    draws: Seq<(i32, i32)>,
)
    requires
        grid.wf(),
    ensures
        placed(occupied, grid, count, draws).len() <= count,
        placed(occupied, grid, count, draws).len() <= draws.len(),
        forall|i: int|
            0 <= i < placed(occupied, grid, count, draws).len() ==> {
                let food = #[trigger] placed(occupied, grid, count, draws)[i];
                grid.contains(food) && !occupied.contains(food.cell())
            },
    decreases draws.len(),
{
    if draws.len() > 0 {
        lemma_placed_is_free(occupied, grid, count, draws.drop_last());
        lemma_cell_on_grid(grid, draws.last());
    }
}

/// How many of the draws give a free cell.
pub open spec fn free_draws(occupied: Set<(i32, i32)>, grid: GridConfig, draws: Seq<(i32, i32)>) -> nat
    decreases draws.len(),
{
    if draws.len() == 0 {
        0
    } else if occupied.contains(cell_for(grid, draws.last()).cell()) {
        free_draws(occupied, grid, draws.drop_last())
    } else {
        free_draws(occupied, grid, draws.drop_last()) + 1
    }
}

/// A batch holds one piece of food for each draw that gave a free cell,
/// up to the number asked for: it is full as soon as that many draws
/// were free.
pub proof fn lemma_placed_len(
    occupied: Set<(i32, i32)>,
    grid: GridConfig,
    count: nat,
    draws: Seq<(i32, i32)>,
)
    ensures
        placed(occupied, grid, count, draws).len() == if free_draws(occupied, grid, draws)
            < count {
            free_draws(occupied, grid, draws)
        } else {
            count
        },
    decreases draws.len(),
{
    if draws.len() > 0 {
        lemma_placed_len(occupied, grid, count, draws.drop_last());
    }
}

/// The cell that a pair of draws stands for lies on the grid.
pub proof fn lemma_cell_on_grid(grid: GridConfig, draw: (i32, i32))
    requires
        grid.wf(),
    ensures
        grid.contains(cell_for(grid, draw)),
{
}

/// The offset that `raw` stands for on an axis of `side` cells.
pub fn offset_of(raw: i32, side: usize) -> (r: i32)
    requires
        1 <= side <= MAX_SIDE,
    ensures
        r == spread(raw, side),
        0 <= r < side,
{
    let shifted: u64 = (raw as i64 + 0x8000_0000) as u64;
    let off: u64 = shifted % (side as u64);
    off as i32
}

/// The cell of the grid that a pair of raw draws stands for.
pub fn cell_from_draws(grid: &GridConfig, draw: (i32, i32)) -> (cell: PositionInGrid)
    requires
        grid.wf(),
    ensures
        cell == cell_for(*grid, draw),
        grid.contains(cell),
{
    PositionInGrid {
        x: grid.min_x() + offset_of(draw.0, grid.width),
        y: grid.min_y() + offset_of(draw.1, grid.height),
    }
}

/// Places up to `count` pieces of food from the given draws, taken in
/// order: a draw whose cell is occupied is passed over, and draws past a
/// full batch are left unused.
pub fn place_from_draws(
    occupied: &CellSet,
    grid: &GridConfig,
    count: usize,
    draws: &Vec<(i32, i32)>,
) -> (food: Vec<PositionInGrid>)
    requires
        grid.wf(),
    ensures
        food@ == placed(occupied@, *grid, count as nat, draws@),
{
    let mut food: Vec<PositionInGrid> = Vec::new();
    let mut i: usize = 0;
    while i < draws.len()
        invariant
            grid.wf(),
            i <= draws@.len(),
            food@ == placed(occupied@, *grid, count as nat, draws@.take(i as int)),
        decreases draws@.len() - i,
    {
        let cell = cell_from_draws(grid, draws[i]);
        proof {
            assert(draws@.take(i + 1).drop_last() =~= draws@.take(i as int));
            assert(draws@.take(i + 1).last() == draws@[i as int]);
        }
        if food.len() < count && !occupied.has(&cell) {
            food.push(cell);
        }
        i += 1;
    }
    assert(draws@.take(i as int) =~= draws@);
    food
}

/// Whether a new batch is due: only when no food is left.
pub fn can_run_spawn(remaining_foods: &Vec<PositionInGrid>) -> (due: bool)
    ensures
        due == (remaining_foods@.len() == 0),
{
    remaining_foods.len() == 0
}

/// Whether `cell` lies on the grid and off the occupied cells.
pub open spec fn is_free(occupied: Set<(i32, i32)>, grid: GridConfig, cell: PositionInGrid) -> bool {
    grid.contains(cell) && !occupied.contains(cell.cell())
}

/// Whether the grid has a free cell.
pub open spec fn has_free(occupied: Set<(i32, i32)>, grid: GridConfig) -> bool {
    exists|cell: PositionInGrid| #[trigger] is_free(occupied, grid, cell)
}

/// Grid order: the lower row first, and within a row the column further
/// left.
pub open spec fn comes_before(a: PositionInGrid, b: PositionInGrid) -> bool {
    a.y < b.y || (a.y == b.y && a.x < b.x)
}

/// Whether `cell` is the first free cell of the grid in grid order.
pub open spec fn is_first_free(
    occupied: Set<(i32, i32)>,
    grid: GridConfig,
    cell: PositionInGrid,
) -> bool {
    &&& is_free(occupied, grid, cell)
    &&& forall|other: PositionInGrid| #[trigger]
        is_free(occupied, grid, other) ==> !comes_before(other, cell)
}

/// Whether `food` is the batch that the run `draws` leads to: the food
/// that the draws place, and, where the draws ran out before the batch
/// was full, the first free cell of the grid for each piece still owed.
pub open spec fn batch_from(
    occupied: Set<(i32, i32)>,
    grid: GridConfig,
    config: FoodPlugin,
    draws: Seq<(i32, i32)>,
    food: Seq<PositionInGrid>,
) -> bool {
    let drawn = placed(occupied, grid, config.food_num as nat, draws);
    &&& draws.len() <= config.max_draws
    &&& drawn.len() == config.food_num || draws.len() == config.max_draws
    &&& drawn.len() <= food.len()
    &&& food.take(drawn.len() as int) == drawn
    &&& forall|i: int|
        drawn.len() <= i < food.len() ==> is_first_free(occupied, grid, #[trigger] food[i])
}

/// Whether `food` is a batch that the director may place: all of it on
/// free cells, as many pieces as were asked for if the grid has a free
/// cell and none if it has not, and the batch of some run of draws.
pub open spec fn is_batch(
    occupied: Set<(i32, i32)>,
    grid: GridConfig,
    config: FoodPlugin,
    food: Seq<PositionInGrid>,
) -> bool {
    &&& forall|i: int|
        0 <= i < food.len() ==> grid.contains(#[trigger] food[i]) && !occupied.contains(
            food[i].cell(),
        )
    &&& food.len() == if has_free(occupied, grid) {
        config.food_num as int
    } else {
        0
    }
    &&& exists|draws: Seq<(i32, i32)>| #[trigger] batch_from(occupied, grid, config, draws, food)
}

/// The first free cell of the grid in grid order, if the grid has one.
pub fn first_free_cell(occupied: &CellSet, grid: &GridConfig) -> (found: Option<PositionInGrid>)
    requires
        grid.wf(),
    ensures
        match found {
            Some(cell) => is_first_free(occupied@, *grid, cell),
            None => !has_free(occupied@, *grid),
        },
{
    let min_x: i32 = grid.min_x();
    let max_x: i32 = grid.max_x();
    let min_y: i32 = grid.min_y();
    let max_y: i32 = grid.max_y();
    let mut y: i32 = min_y;
    while y <= max_y
        invariant
            grid.wf(),
            min_x == grid.spec_min_x(),
            max_x == grid.spec_max_x(),
            min_y == grid.spec_min_y(),
            max_y == grid.spec_max_y(),
            min_y <= y <= max_y + 1,
            forall|c: PositionInGrid| #[trigger] is_free(occupied@, *grid, c) ==> c.y >= y,
        decreases max_y + 1 - y,
    {
        let mut x: i32 = min_x;
        while x <= max_x
            invariant
                grid.wf(),
                min_x == grid.spec_min_x(),
                max_x == grid.spec_max_x(),
                min_y == grid.spec_min_y(),
                max_y == grid.spec_max_y(),
                min_y <= y <= max_y,
                min_x <= x <= max_x + 1,
                forall|c: PositionInGrid| #[trigger]
                    is_free(occupied@, *grid, c) ==> c.y > y || (c.y == y && c.x >= x),
            decreases max_x + 1 - x,
        {
            let cell = PositionInGrid { x, y };
            if !occupied.has(&cell) {
                return Some(cell);
            }
            x += 1;
        }
        y += 1;
    }
    None
}

/// Places a batch of food. For each piece, cells are drawn at random until
/// one is free of the snake. Once `config.max_draws` cells were drawn for
/// the batch, each piece still owed goes to the first free cell of the
/// grid. So the batch is full whenever the grid has a free cell, whatever
/// is drawn, and all of it lies on free cells of the grid.
pub fn spawn(occupied: &CellSet, grid: &GridConfig, config: &FoodPlugin) -> (food: Vec<
    PositionInGrid,
>)
    requires
        grid.wf(),
    ensures
        is_batch(occupied@, *grid, *config, food@),
{
    let mut food: Vec<PositionInGrid> = Vec::new();
    let mut used: usize = 0;
    let ghost mut draws: Seq<(i32, i32)> = Seq::empty();
    while food.len() < config.food_num && used < config.max_draws
        invariant
            grid.wf(),
            used <= config.max_draws,
            draws.len() == used,
            food@.len() <= config.food_num,
            food@ == placed(occupied@, *grid, config.food_num as nat, draws),
            forall|i: int|
                0 <= i < food@.len() ==> grid.contains(#[trigger] food@[i])
                    && !occupied@.contains(food@[i].cell()),
        decreases config.max_draws - used,
    {
        let x: i32 = random_i32();
        let y: i32 = random_i32();
        let cell = cell_from_draws(grid, (x, y));
        proof {
            assert(draws.push((x, y)).drop_last() =~= draws);
            draws = draws.push((x, y));
        }
        if !occupied.has(&cell) {
            food.push(cell);
        }
        used += 1;
    }
    let ghost drawn = food@;
    assert(food@.take(drawn.len() as int) =~= drawn);
    if food.len() < config.food_num {
        match first_free_cell(occupied, grid) {
            Some(cell) => {
                while food.len() < config.food_num
                    invariant
                        is_first_free(occupied@, *grid, cell),
                        drawn.len() <= food@.len() <= config.food_num,
                        food@.take(drawn.len() as int) == drawn,
                        forall|i: int| drawn.len() <= i < food@.len() ==> #[trigger] food@[i] == cell,
                        forall|i: int|
                            0 <= i < food@.len() ==> grid.contains(#[trigger] food@[i])
                                && !occupied@.contains(food@[i].cell()),
                    decreases config.food_num - food@.len(),
                {
                    food.push(cell);
                    assert(food@.take(drawn.len() as int) =~= drawn);
                }
                assert(is_free(occupied@, *grid, cell));
            },
            None => {
                assert(food@.len() == 0) by {
                    if food@.len() > 0 {
                        assert(is_free(occupied@, *grid, food@[0]));
                    }
                }
            },
        }
    } else {
        assert(food@.len() > 0 ==> is_free(occupied@, *grid, food@[0]));
    }
    assert(batch_from(occupied@, *grid, *config, draws, food@));
    food
}

/// Replenishes the food when none is left: an empty `food` is replaced by
/// a new batch, any other is left as it is.
pub fn maybe_replenish(
    food: &mut Vec<PositionInGrid>,
    occupied: &CellSet,
    grid: &GridConfig,
    config: &FoodPlugin,
)
    requires
        grid.wf(),
    ensures
        old(food)@.len() > 0 ==> final(food)@ == old(food)@,
        old(food)@.len() == 0 ==> is_batch(occupied@, *grid, *config, final(food)@),
{
    if can_run_spawn(food) {
        *food = spawn(occupied, grid, config);
    }
}

} // verus!
