//! The snake: a head, a heading and the chain of segments behind it.

use vstd::prelude::*;
use crate::cells::CellSet;
use crate::grid::{GridConfig, PositionInGrid};

verus! {

/// One of the four headings, a unit step on the grid.
#[derive(Clone, Copy, Debug, Hash, PartialEq, Eq, Structural)]
pub enum Direction {
    Up,
    Down,
    Left,
    Right,
}

impl Direction {
    /// The step along the columns.
    pub open spec fn dx(self) -> int {
        match self {
            Direction::Left => -1,
            Direction::Right => 1,
            _ => 0,
        }
    }

    /// The step along the rows.
    pub open spec fn dy(self) -> int {
        match self {
            Direction::Up => 1,
            Direction::Down => -1,
            _ => 0,
        }
    }

    /// The exact reverse of the heading.
    pub open spec fn reverse(self) -> Direction {
        match self {
            Direction::Up => Direction::Down,
            Direction::Down => Direction::Up,
            Direction::Left => Direction::Right,
            Direction::Right => Direction::Left,
        }
    }

    /// The step along the columns.
    pub fn step_x(self) -> (r: i32)
        ensures
            r == self.dx(),
    {
        match self {
            Direction::Left => -1,
            Direction::Right => 1,
            _ => 0,
        }
    }

    /// The step along the rows.
    pub fn step_y(self) -> (r: i32)
        ensures
            r == self.dy(),
    {
        match self {
            Direction::Up => 1,
            Direction::Down => -1,
            _ => 0,
        }
    }

    /// The exact reverse of the heading.
    pub fn opposite(self) -> (r: Direction)
        ensures
            r == self.reverse(),
    {
        match self {
            Direction::Up => Direction::Down,
            Direction::Down => Direction::Up,
            Direction::Left => Direction::Right,
            Direction::Right => Direction::Left,
        }
    }
}

/// The cell one step from `pos` in direction `dir`, not wrapped.
pub open spec fn stepped(pos: PositionInGrid, dir: Direction) -> PositionInGrid {
    PositionInGrid { x: (pos.x + dir.dx()) as i32, y: (pos.y + dir.dy()) as i32 }
}

/// A chain after one move behind a head that stood on `head`: every entry
/// stands where the one before it stood, the first where the head stood.
pub open spec fn ripple(head: PositionInGrid, chain: Seq<PositionInGrid>) -> Seq<PositionInGrid> {
    seq![head] + chain.drop_last()
}

/// Whether move `t - 1` of a run ripples the chain: the chain before move
/// `t` is the one before move `t - 1`, moved along behind the head.
pub open spec fn ripples_at(
    heads: Seq<PositionInGrid>,
    chains: Seq<Seq<PositionInGrid>>,
    t: int,
) -> bool {
    chains[t] == ripple(heads[t - 1], chains[t - 1])
}

/// A run of moves without growth: `heads[t]` and `chains[t]` are the head's
/// cell and the chain before move `t`, and each move ripples the chain.
pub open spec fn is_run(heads: Seq<PositionInGrid>, chains: Seq<Seq<PositionInGrid>>) -> bool {
    &&& chains.len() == heads.len()
    &&& chains.len() > 0 ==> chains[0].len() >= 1
    &&& forall|t: int| 1 <= t < chains.len() ==> #[trigger] ripples_at(heads, chains, t)
}

/// The chain follows the head. Over any `k` moves of a run the chain keeps
/// its length, and entry `i` comes to stand where entry `i - k` stood, or,
/// where the chain has no such entry, where the head stood `i + 1` moves
/// before the end. With `k` = 1: every entry stands where the one before
/// it stood one move earlier.
pub proof fn lemma_chain_follows(
    heads: Seq<PositionInGrid>,
    chains: Seq<Seq<PositionInGrid>>,
    t: int,
    k: int,
    i: int,
)
    requires
        is_run(heads, chains),
        0 <= t,
        0 <= k,
        t + k < chains.len(),
        0 <= i < chains[t].len(),
    ensures
        chains[t + k].len() == chains[t].len(),
        i >= k ==> chains[t + k][i] == chains[t][i - k],
        i < k ==> chains[t + k][i] == heads[t + k - 1 - i],
    decreases k,
{
    if k > 0 {
        lemma_chain_follows(heads, chains, t, k - 1, i);
        if i >= 1 {
            lemma_chain_follows(heads, chains, t, k - 1, i - 1);
        }
        assert(ripples_at(heads, chains, t + k));
    }
}

/// The snake. `parts` is the chain behind the head, nearest first. Its last
/// entry is the growth slot: a placeholder that trails the chain, takes up
/// no cell and is never collided with. All entries before it are solid.
pub struct Snake {
    pub head: PositionInGrid,
    pub direction: Direction,
    pub parts: Vec<PositionInGrid>,
}

impl Snake {
    /// The chain always ends in its growth slot.
    pub open spec fn wf(self) -> bool {
        self.parts@.len() >= 1
    }

    /// The solid segments, nearest to the head first.
    pub open spec fn solid(self) -> Seq<PositionInGrid> {
        self.parts@.drop_last()
    }

    /// Where the growth slot stands.
    pub open spec fn growth_slot(self) -> PositionInGrid {
        self.parts@.last()
    }

    /// Whether the head and every entry of the chain lie on the grid.
    pub open spec fn within(self, grid: GridConfig) -> bool {
        &&& grid.contains(self.head)
        &&& forall|i: int| 0 <= i < self.parts@.len() ==> grid.contains(#[trigger] self.parts@[i])
    }

    /// Where the head goes next, before wrapping.
    pub open spec fn next_head(self) -> PositionInGrid {
        stepped(self.head, self.direction)
    }

    /// The chain after one move: every entry stands where the one before
    /// it stood, the first where the head stood.
    pub open spec fn rippled(self) -> Seq<PositionInGrid> {
        ripple(self.head, self.parts@)
    }

    /// Whether a head that moves to `target` runs into the body. The
    /// growth slot does not count, nor does the last solid segment, whose
    /// cell is vacated by the same move.
    pub open spec fn runs_into(self, target: PositionInGrid) -> bool {
        exists|i: int| 0 <= i < self.parts@.len() - 2 && #[trigger] self.parts@[i] == target
    }

    /// The cells that the snake takes up: the head's and those of the
    /// solid segments.
    pub open spec fn occupied(self) -> Set<(i32, i32)> {
        Set::new(
            |c: (i32, i32)|
                c == self.head.cell() || exists|i: int|
                    0 <= i < self.parts@.len() - 1 && (#[trigger] self.parts@[i]).cell() == c,
        )
    }

    /// The chain after growing at `position`: a new solid segment there,
    /// behind the others, and the growth slot behind it.
    pub open spec fn grown(self, position: PositionInGrid) -> Seq<PositionInGrid> {
        self.solid().push(position).push(self.growth_slot())
    }

    /// Takes up `requested` as the heading unless it is the exact reverse of
    /// the current one; says whether it was taken up.
    pub fn set_direction(&mut self, requested: Direction) -> (changed: bool)
        ensures
            changed == (requested != old(self).direction.reverse()),
            final(self).direction == if changed {
                requested
            } else {
                old(self).direction
            },
            final(self).head == old(self).head,
            final(self).parts == old(self).parts,
    {
        if requested == self.direction.opposite() {
            false
        } else {
            self.direction = requested;
            true
        }
    }

    /// Moves the snake by one cell. Returns the head's new cell before
    /// wrapping, and whether that cell was one of the solid segments that
    /// stay in place under the move. The head ends on the wrapped cell and
    /// every entry of the chain on the cell of the one before it. The test
    /// for a collision takes the unwrapped cell, so a head that leaves the
    /// grid on this move does not collide.
    pub fn advance(&mut self, grid: &GridConfig) -> (r: (PositionInGrid, bool))
        requires
            old(self).wf(),
            grid.wf(),
            grid.contains(old(self).head),
        ensures
            r.0 == old(self).next_head(),
            r.1 == old(self).runs_into(r.0),
            final(self).head == grid.wrap_spec(r.0),
            final(self).direction == old(self).direction,
            final(self).parts@ == old(self).rippled(),
            final(self).parts@.len() == old(self).parts@.len(),
            final(self).parts@[0] == old(self).head,
            forall|i: int|
                1 <= i < old(self).parts@.len() ==> #[trigger] final(self).parts@[i] == old(self).parts@[i - 1],
            final(self).wf(),
            grid.contains(final(self).head),
            old(self).within(*grid) ==> final(self).within(*grid),
    {
        let mut last_pos = self.head;
        let new_head = PositionInGrid {
            x: self.head.x + self.direction.step_x(),
            y: self.head.y + self.direction.step_y(),
        };
        self.head = grid.wrap(new_head);
        let n: usize = self.parts.len();
        let mut i: usize = 0;
        while i < n
            invariant
                n == self.parts@.len(),
                n == old(self).parts@.len(),
                i <= n,
                forall|j: int| 0 <= j < i ==> #[trigger] self.parts@[j] == old(self).rippled()[j],
                forall|j: int| i <= j < n ==> #[trigger] self.parts@[j] == old(self).parts@[j],
                last_pos == if i == 0 {
                    old(self).head
                } else {
                    old(self).parts@[i - 1]
                },
                self.head == grid.wrap_spec(new_head),
                self.direction == old(self).direction,
            decreases n - i,
        {
            let mine = self.parts[i];
            self.parts.set(i, last_pos);
            last_pos = mine;
            i += 1;
        }
        assert(self.parts@ =~= old(self).rippled());
        let mut collided = false;
        let solid: usize = n - 1;
        let mut k: usize = 1;
        while k < solid
            invariant
                n == self.parts@.len(),
                n == old(self).parts@.len(),
                solid == n - 1,
                1 <= k,
                k <= solid || k == 1,
                self.parts@ == old(self).rippled(),
                collided == exists|j: int|
                    0 <= j < k - 1 && #[trigger] old(self).parts@[j] == new_head,
            decreases solid - k,
        {
            assert(self.parts@[k as int] == old(self).parts@[k - 1]);
            if self.parts[k] == new_head {
                collided = true;
            }
            k += 1;
        }
        (new_head, collided)
    }

    /// Lengthens the chain by one solid segment at `position`. The growth
    /// slot leaves the tail, the new segment is appended, and the growth
    /// slot is appended again behind it.
    pub fn grow_at(&mut self, position: PositionInGrid)
        requires
            old(self).wf(),
        ensures
            final(self).parts@ == old(self).grown(position),
            final(self).solid() == old(self).solid().push(position),
            final(self).solid().len() == old(self).solid().len() + 1,
            final(self).growth_slot() == old(self).growth_slot(),
            final(self).head == old(self).head,
            final(self).direction == old(self).direction,
            final(self).wf(),
            forall|grid: GridConfig|
                old(self).within(grid) && grid.contains(position) ==> #[trigger] final(self).within(grid),
    {
        let last: usize = self.parts.len() - 1;
        let slot = self.parts[last];
        self.parts.pop();
        self.parts.push(position);
        self.parts.push(slot);
        assert(self.solid() =~= old(self).solid().push(position));
    }

    /// The cells that the snake takes up: the head's and those of the
    /// solid segments, without the growth slot.
    pub fn occupied_cells(&self) -> (cells: CellSet)
        requires
            self.wf(),
        ensures
            cells@ == self.occupied(),
    {
        let mut cells = CellSet::new();
        cells.add(&self.head);
        let solid: usize = self.parts.len() - 1;
        let mut i: usize = 0;
        while i < solid
            invariant
                solid == self.parts@.len() - 1,
                i <= solid,
                forall|c: (i32, i32)|
                    cells@.contains(c) <==> (c == self.head.cell() || exists|j: int|
                        0 <= j < i && (#[trigger] self.parts@[j]).cell() == c),
            decreases solid - i,
        {
            let ghost before = cells@;
            cells.add(&self.parts[i]);
            i += 1;
            assert forall|c: (i32, i32)|
                cells@.contains(c) <==> (c == self.head.cell() || exists|j: int|
                    0 <= j < i && (#[trigger] self.parts@[j]).cell() == c) by {
                if cells@.contains(c) && c != self.head.cell() {
                    if before.contains(c) {
                        let j = choose|j: int|
                            0 <= j < i - 1 && (#[trigger] self.parts@[j]).cell() == c;
                        assert(0 <= j < i && self.parts@[j].cell() == c);
                    } else {
                        assert(self.parts@[i - 1].cell() == c);
                    }
                }
            }
        }
        assert(cells@ =~= self.occupied());
        cells
    }
}

/// Lays out a snake at the start of a round: the head at the origin,
/// heading up, `init_len - 1` solid segments in the cells below it and the
/// growth slot below those, `init_len` cells under the head.
pub fn snake_setup(init_len: usize) -> (snake: Snake)
    requires
        init_len <= 0x7fff_ffff,
    ensures
        snake.wf(),
        snake.head == (PositionInGrid { x: 0, y: 0 }),
        snake.direction == Direction::Up,
        init_len == 0 ==> snake.parts@.len() == 1,
        init_len > 0 ==> snake.parts@.len() == init_len,
        forall|i: int|
            0 <= i < snake.parts@.len() - 1 ==> (#[trigger] snake.parts@[i]).x == 0
                && snake.parts@[i].y == -(i + 1),
        snake.growth_slot().x == 0,
        snake.growth_slot().y == -(init_len as int),
{
    let mut parts: Vec<PositionInGrid> = Vec::new();
    let mut i: usize = 1;
    while i < init_len
        invariant
            1 <= i,
            i <= init_len || i == 1,
            init_len <= 0x7fff_ffff,
            parts@.len() == i - 1,
            forall|j: int|
                0 <= j < parts@.len() ==> (#[trigger] parts@[j]).x == 0 && parts@[j].y == -(j + 1),
        decreases init_len - i,
    {
        parts.push(PositionInGrid { x: 0, y: -(i as i32) });
        i += 1;
    }
    parts.push(PositionInGrid { x: 0, y: -(init_len as i32) });
    Snake { head: PositionInGrid { x: 0, y: 0 }, direction: Direction::Up, parts }
}

} // verus!
