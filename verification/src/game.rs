//! The game controller: the movement timer, the round's state and the
//! world that one tick changes.

use vstd::prelude::*;
use crate::food::{is_batch, maybe_replenish, FoodPlugin};
use crate::grid::{GridConfig, PositionInGrid};
use crate::snake::{snake_setup, stepped, Direction, Snake};

verus! {

/// The state of the round. `GameOver` ends it: no tick changes the world
/// after it. `Paused` holds ticks back; nothing in the library enters it.
#[derive(Clone, Copy, Debug, Hash, PartialEq, Eq, Structural)]
pub enum GameState {
    Running,
    Paused,
    GameOver,
}

impl Default for GameState {
    fn default() -> (r: Self)
        ensures
            r == GameState::Running,
    {
        GameState::Running
    }
}

/// What one update did.
#[derive(Clone, Copy, Debug, Hash, PartialEq, Eq, Structural)]
pub enum TickOutcome {
    /// The round is not running, or the move is not yet due.
    Idle,
    /// The snake moved by one cell.
    Moved,
    /// The snake moved onto food and grew.
    Ate,
    /// The snake ran into itself: the round is over.
    Crashed,
}

/// Counts time up to a fixed period. Both are in the caller's unit of
/// time. The count never passes the period.
#[derive(Clone, Copy, Debug)]
pub struct MovementTimer {
    pub elapsed: u64,
    pub period: u64,
}

impl MovementTimer {
    /// The count has not passed the period.
    pub open spec fn wf(self) -> bool {
        self.elapsed <= self.period
    }

    /// Whether the period has run out.
    pub open spec fn is_due(self) -> bool {
        self.elapsed >= self.period
    }

    /// A timer of the given period that has counted nothing yet.
    pub fn new(period: u64) -> (timer: MovementTimer)
        ensures
            timer.elapsed == 0,
            timer.period == period,
            timer.wf(),
    {
        MovementTimer { elapsed: 0, period }
    }

    /// Adds `delta` to the count, which stops at the period.
    pub fn tick(&mut self, delta: u64)
        requires
            old(self).wf(),
        ensures
            final(self).period == old(self).period,
            final(self).elapsed == if old(self).elapsed + delta >= old(self).period {
                old(self).period as int
            } else {
                old(self).elapsed + delta
            },
            final(self).wf(),
    {
        let room: u64 = self.period - self.elapsed;
        if delta >= room {
            self.elapsed = self.period;
        } else {
            self.elapsed = self.elapsed + delta;
        }
    }

    /// Whether the period has run out.
    pub fn finished(&self) -> (due: bool)
        ensures
            due == self.is_due(),
    {
        self.elapsed >= self.period
    }

    /// Starts the count again from nothing.
    pub fn reset(&mut self)
        ensures
            final(self).period == old(self).period,
            final(self).elapsed == 0,
            final(self).wf(),
    {
        self.elapsed = 0;
    }

    /// Lets the period run out at once.
    pub fn fast_forward(&mut self)
        ensures
            final(self).period == old(self).period,
            final(self).elapsed == old(self).period,
            final(self).wf(),
            final(self).is_due(),
    {
        self.elapsed = self.period;
    }
}

/// The food that is left when all food on `cell` is taken away.
pub open spec fn without(food: Seq<PositionInGrid>, cell: PositionInGrid) -> Seq<PositionInGrid>
    decreases food.len(),
{
    if food.len() == 0 {
        Seq::empty()
    } else if food.last() == cell {
        without(food.drop_last(), cell)
    } else {
        without(food.drop_last(), cell).push(food.last())
    }
}

/// Taking the food of a cell away leaves none on that cell, keeps all
/// other food, and adds none.
pub proof fn lemma_without(food: Seq<PositionInGrid>, cell: PositionInGrid)
    ensures
        !without(food, cell).contains(cell),
        without(food, cell).len() <= food.len(),
        forall|p: PositionInGrid|
            p != cell ==> (#[trigger] without(food, cell).contains(p) <==> food.contains(p)),
        !food.contains(cell) ==> without(food, cell) == food,
    decreases food.len(),
{
    if food.len() > 0 {
        let front = food.drop_last();
        let rest = without(front, cell);
        lemma_without(front, cell);
        assert(food =~= front.push(food.last()));
        assert forall|p: PositionInGrid| p != cell implies (#[trigger] without(
            food,
            cell,
        ).contains(p) <==> food.contains(p)) by {
            if without(food, cell).contains(p) {
                let i = choose|i: int| 0 <= i < without(food, cell).len() && without(food, cell)[i] == p;
                if i < rest.len() {
                    assert(rest[i] == p);
                    assert(rest.contains(p));
                    let j = choose|j: int| 0 <= j < front.len() && front[j] == p;
                    assert(food[j] == p);
                } else {
                    assert(food[food.len() - 1] == p);
                }
            }
            if food.contains(p) {
                let j = choose|j: int| 0 <= j < food.len() && food[j] == p;
                if j < front.len() {
                    assert(front[j] == p);
                    assert(front.contains(p));
                    assert(rest.contains(p));
                    let i = choose|i: int| 0 <= i < rest.len() && rest[i] == p;
                    assert(without(food, cell)[i] == p);
                } else {
                    assert(without(food, cell) == rest.push(p));
                    assert(without(food, cell)[rest.len() as int] == p);
                }
            }
        }
        if without(food, cell).contains(cell) {
            let i = choose|i: int| 0 <= i < without(food, cell).len() && without(food, cell)[i] == cell;
            assert(rest[i] == cell);
            assert(rest.contains(cell));
        }
        if !food.contains(cell) {
            assert(food.last() == food[food.len() - 1]);
            assert forall|j: int| 0 <= j < front.len() implies front[j] != cell by {
                assert(food[j] == front[j]);
            }
            assert(!front.contains(cell));
        }
    }
}

/// Takes all food on `cell` out of `food`; says whether there was any.
pub fn remove_food_at(food: &mut Vec<PositionInGrid>, cell: PositionInGrid) -> (eaten: bool)
    ensures
        final(food)@ == without(old(food)@, cell),
        eaten == old(food)@.contains(cell),
        !final(food)@.contains(cell),
{
    let mut kept: Vec<PositionInGrid> = Vec::new();
    let mut eaten = false;
    let mut i: usize = 0;
    while i < food.len()
        invariant
            i <= food@.len(),
            food@ == old(food)@,
            kept@ == without(food@.take(i as int), cell),
            eaten == food@.take(i as int).contains(cell),
        decreases food@.len() - i,
    {
        proof {
            let cur = food@.take(i as int);
            let nxt = food@.take(i + 1);
            assert(nxt.drop_last() =~= cur);
            assert(nxt.last() == food@[i as int]);
            if cur.contains(cell) {
                let j = choose|j: int| 0 <= j < cur.len() && cur[j] == cell;
                assert(nxt[j] == cell);
            }
            if nxt.contains(cell) && food@[i as int] != cell {
                let j = choose|j: int| 0 <= j < nxt.len() && nxt[j] == cell;
                assert(cur[j] == cell);
            }
            if food@[i as int] == cell {
                assert(nxt[i as int] == cell);
            }
        }
        if food[i] == cell {
            eaten = true;
        } else {
            kept.push(food[i]);
        }
        i += 1;
    }
    proof {
        assert(food@.take(i as int) =~= food@);
        lemma_without(food@, cell);
    }
    *food = kept;
    eaten
}

/// Everything that a round holds: the grid, the snake, the food on the
/// grid, the round's state, the timer of the moves, the direction asked
/// for since the last move, and the food director's settings.
pub struct World {
    pub grid: GridConfig,
    pub snake: Snake,
    pub food: Vec<PositionInGrid>,
    pub state: GameState,
    pub timer: MovementTimer,
    pub pending: Option<Direction>,
    pub food_config: FoodPlugin,
}

impl World {
    /// The grid is a grid, the snake has its growth slot and its head on
    /// the grid, and the timer has not passed its period.
    pub open spec fn wf(self) -> bool {
        &&& self.grid.wf()
        &&& self.snake.wf()
        &&& self.grid.contains(self.snake.head)
        &&& self.timer.wf()
    }

    /// Whether an update after `delta` more time moves the snake.
    pub open spec fn move_due(self, delta: u64) -> bool {
        self.state == GameState::Running && self.timer.elapsed + delta >= self.timer.period
    }

    /// The heading of the next move: the direction asked for, unless none
    /// was or it is the reverse of the current heading.
    pub open spec fn turned(self) -> Direction {
        match self.pending {
            Some(d) => if d != self.snake.direction.reverse() {
                d
            } else {
                self.snake.direction
            },
            None => self.snake.direction,
        }
    }

    /// The cell the head moves to next, not wrapped.
    pub open spec fn target(self) -> PositionInGrid {
        stepped(self.snake.head, self.turned())
    }

    /// Whether the next move runs the head into the body.
    pub open spec fn crashes(self) -> bool {
        self.snake.runs_into(self.target())
    }

    /// The cell the head stands on after the next move.
    pub open spec fn new_head(self) -> PositionInGrid {
        self.grid.wrap_spec(self.target())
    }

    /// Whether the next move brings the head onto food.
    pub open spec fn eats(self) -> bool {
        !self.crashes() && self.food@.contains(self.new_head())
    }

    /// The chain after the next move. When the snake eats, the new solid
    /// segment stands where the growth slot stood before the move.
    pub open spec fn new_parts(self) -> Seq<PositionInGrid> {
        let moved = self.snake.rippled();
        if self.eats() {
            moved.drop_last().push(self.snake.growth_slot()).push(moved.last())
        } else {
            moved
        }
    }

    /// The food that the next move leaves on the grid.
    pub open spec fn food_left(self) -> Seq<PositionInGrid> {
        if self.crashes() {
            self.food@
        } else {
            without(self.food@, self.new_head())
        }
    }

    /// What an update after `delta` more time reports.
    pub open spec fn outcome_of(self, delta: u64) -> TickOutcome {
        if !self.move_due(delta) {
            TickOutcome::Idle
        } else if self.crashes() {
            TickOutcome::Crashed
        } else if self.eats() {
            TickOutcome::Ate
        } else {
            TickOutcome::Moved
        }
    }

    /// How an update after `delta` more time changes everything but the
    /// food. A round that is not running stays as it is. A running round
    /// whose move is not due only counts the time. A due move takes up the
    /// direction asked for, starts the timer again, moves the snake, ends
    /// the round if the snake ran into itself, and lets the snake grow if
    /// it came onto food.
    pub open spec fn moved_to(self, post: World, delta: u64) -> bool {
        &&& post.grid == self.grid
        &&& post.food_config == self.food_config
        &&& post.timer.period == self.timer.period
        &&& self.state != GameState::Running ==> {
            &&& post.state == self.state
            &&& post.timer == self.timer
            &&& post.pending == self.pending
            &&& post.snake == self.snake
        }
        &&& self.state == GameState::Running && !self.move_due(delta) ==> {
            &&& post.state == self.state
            &&& post.timer.elapsed == self.timer.elapsed + delta
            &&& post.pending == self.pending
            &&& post.snake == self.snake
        }
        &&& self.move_due(delta) ==> {
            &&& post.state == if self.crashes() {
                GameState::GameOver
            } else {
                GameState::Running
            }
            &&& post.timer.elapsed == 0
            &&& post.pending == None::<Direction>
            &&& post.snake.direction == self.turned()
            &&& post.snake.head == self.new_head()
            &&& post.snake.parts@ == self.new_parts()
        }
    }

    /// A world at the start of a round: the snake laid out from the
    /// origin, no food yet, the round running, nothing counted and no
    /// direction asked for.
    pub fn new(grid: GridConfig, init_len: usize, period: u64, food_config: FoodPlugin) -> (world:
        World)
        requires
            grid.wf(),
            init_len <= 0x7fff_ffff,
        ensures
            world.wf(),
            world.grid == grid,
            world.food_config == food_config,
            world.food@.len() == 0,
            world.state == GameState::Running,
            world.timer.elapsed == 0,
            world.timer.period == period,
            world.pending == None::<Direction>,
            world.snake.head == (PositionInGrid { x: 0, y: 0 }),
            world.snake.direction == Direction::Up,
            init_len == 0 ==> world.snake.parts@.len() == 1,
            init_len > 0 ==> world.snake.parts@.len() == init_len,
            forall|i: int|
                0 <= i < world.snake.parts@.len() - 1 ==> (#[trigger] world.snake.parts@[i]).x == 0
                    && world.snake.parts@[i].y == -(i + 1),
            world.snake.growth_slot().x == 0,
            world.snake.growth_slot().y == -(init_len as int),
    {
        World {
            grid,
            snake: snake_setup(init_len),
            food: Vec::new(),
            state: GameState::Running,
            timer: MovementTimer::new(period),
            pending: None,
            food_config,
        }
    }

    /// Whether the world is one that an update may be given.
    pub fn is_valid(&self) -> (ok: bool)
        ensures
            ok == self.wf(),
    {
        self.grid.is_valid() && self.snake.parts.len() >= 1 && self.grid.in_bounds(
            &self.snake.head,
        ) && self.timer.elapsed <= self.timer.period
    }

    /// Notes the direction asked for. It is taken up at the next move; a
    /// direction asked for earlier and not yet taken up is forgotten.
    /// Unless the direction is the reverse of the heading, the timer's
    /// period runs out at once, so that the next update makes the move.
    pub fn handle_input(&mut self, requested: Direction) -> (accepted: bool)
        ensures
            accepted == (requested != old(self).snake.direction.reverse()),
            final(self).pending == Some(requested),
            final(self).timer.period == old(self).timer.period,
            final(self).timer.elapsed == if requested != old(self).snake.direction.reverse() {
                old(self).timer.period
            } else {
                old(self).timer.elapsed
            },
            old(self).wf() ==> final(self).wf(),
            final(self).grid == old(self).grid,
            final(self).snake == old(self).snake,
            final(self).food == old(self).food,
            final(self).state == old(self).state,
            final(self).food_config == old(self).food_config,
    {
        self.pending = Some(requested);
        if requested == self.snake.direction.opposite() {
            false
        } else {
            self.timer.fast_forward();
            true
        }
    }

    /// One update without the food director: counts `delta`, and once the
    /// move is due moves the snake, ends the round on a collision and lets
    /// the snake eat the food under its head.
    pub fn tick(&mut self, delta: u64) -> (outcome: TickOutcome)
        requires
            old(self).wf(),
        ensures
            final(self).wf(),
            old(self).moved_to(*final(self), delta),
            outcome == old(self).outcome_of(delta),
            final(self).food@ == if old(self).move_due(delta) {
                old(self).food_left()
            } else {
                old(self).food@
            },
            final(self).snake.parts@.len() == old(self).snake.parts@.len() + if outcome
                == TickOutcome::Ate {
                1int
            } else {
                0int
            },
            outcome == TickOutcome::Moved || outcome == TickOutcome::Ate ==> !final(self).food@.contains(final(self).snake.head),
    {
        match self.state {
            GameState::Running => {},
            _ => {
                return TickOutcome::Idle;
            },
        }
        self.timer.tick(delta);
        if !self.timer.finished() {
            return TickOutcome::Idle;
        }
        match self.pending {
            Some(d) => {
                self.snake.set_direction(d);
            },
            None => {},
        }
        self.pending = None;
        self.timer.reset();
        let vacated = self.snake.parts[self.snake.parts.len() - 1];
        let grid = self.grid;
        let moved = self.snake.advance(&grid);
        if moved.1 {
            self.state = GameState::GameOver;
            return TickOutcome::Crashed;
        }
        let head = self.snake.head;
        let eaten = remove_food_at(&mut self.food, head);
        if eaten {
            self.snake.grow_at(vacated);
            TickOutcome::Ate
        } else {
            TickOutcome::Moved
        }
    }

    /// One update: `tick`, and after a move that left no food on the
    /// grid, a new batch of food on cells free of the snake. The batch is
    /// full whenever the snake leaves a cell of the grid free.
    pub fn update(&mut self, delta: u64) -> (outcome: TickOutcome)
        requires
            old(self).wf(),
        ensures
            final(self).wf(),
            old(self).moved_to(*final(self), delta),
            outcome == old(self).outcome_of(delta),
            final(self).snake.parts@.len() == old(self).snake.parts@.len() + if outcome
                == TickOutcome::Ate {
                1int
            } else {
                0int
            },
            outcome == TickOutcome::Moved || outcome == TickOutcome::Ate ==> !final(self).food@.contains(final(self).snake.head),
            !old(self).move_due(delta) ==> final(self).food@ == old(self).food@,
            old(self).move_due(delta) && (old(self).crashes() || old(self).food_left().len() > 0)
                ==> final(self).food@ == old(self).food_left(),
            old(self).move_due(delta) && !old(self).crashes() && old(self).food_left().len() == 0
                ==> is_batch(
                final(self).snake.occupied(),
                old(self).grid,
                old(self).food_config,
                final(self).food@,
            ),
    {
        let outcome = self.tick(delta);
        match outcome {
            TickOutcome::Moved | TickOutcome::Ate => {
                let occupied = self.snake.occupied_cells();
                let grid = self.grid;
                let config = self.food_config;
                maybe_replenish(&mut self.food, &occupied, &grid, &config);
            },
            _ => {},
        }
        outcome
    }
}

} // verus!
