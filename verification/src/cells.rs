//! A set of grid cells, kept in the hash set of the engine's utilities.

use vstd::prelude::*;
use crate::grid::PositionInGrid;

verus! {

/// A set of cells. The cells live in a `bevy::utils::HashSet`, whose
/// inside the verifier does not read: what it holds is `cells_of`.
#[verifier::external_body]
pub struct CellSet {
    cells: bevy::utils::HashSet<(i32, i32)>,
}

/// The cells that a `CellSet` holds.
pub uninterp spec fn cells_of(s: CellSet) -> Set<(i32, i32)>;

/// `Default::default` of `bevy::utils::HashSet`, which is hashbrown's
/// `HashSet` with a fixed hasher: believed to give a set that holds no
/// cell.
#[verifier::external_body]
fn set_empty() -> (s: CellSet)
    ensures
        cells_of(s) == Set::<(i32, i32)>::empty(),
{
    CellSet { cells: bevy::utils::HashSet::default() }
}

/// `insert` of `bevy::utils::HashSet`: believed to add the cell to what
/// the set held, to keep all that it held, and to return whether the cell
/// was new to it.
#[verifier::external_body]
fn set_insert(s: &mut CellSet, c: (i32, i32)) -> (fresh: bool)
    ensures
        cells_of(*final(s)) == cells_of(*old(s)).insert(c),
        fresh == !cells_of(*old(s)).contains(c),
{
    s.cells.insert(c)
}

/// `contains` of `bevy::utils::HashSet`: believed to return whether the
/// set holds the cell.
#[verifier::external_body]
fn set_contains(s: &CellSet, c: (i32, i32)) -> (found: bool)
    ensures
        found == cells_of(*s).contains(c),
{
    s.cells.contains(&c)
}

impl CellSet {
    /// The cells of the set, as a mathematical set of pairs.
    pub open spec fn view(&self) -> Set<(i32, i32)> {
        cells_of(*self)
    }

    /// A set without cells.
    pub fn new() -> (s: CellSet)
        ensures
            s@ == Set::<(i32, i32)>::empty(),
    {
        set_empty()
    }

    /// Adds `pos`; says whether it was new to the set.
    pub fn add(&mut self, pos: &PositionInGrid) -> (fresh: bool)
        ensures
            final(self)@ == old(self)@.insert(pos.cell()),
            fresh == !old(self)@.contains(pos.cell()),
    {
        set_insert(self, pos.to_cell())
    }

    /// Whether the set holds `pos`.
    pub fn has(&self, pos: &PositionInGrid) -> (found: bool)
        ensures
            found == self@.contains(pos.cell()),
    {
        set_contains(self, pos.to_cell())
    }

    /// The set of the cells listed in `cells`.
    pub fn from_positions(cells: &Vec<PositionInGrid>) -> (s: CellSet)
        ensures
            forall|c: (i32, i32)|
                s@.contains(c) <==> exists|i: int|
                    0 <= i < cells@.len() && (#[trigger] cells@[i]).cell() == c,
    {
        let mut s = CellSet::new();
        let mut i: usize = 0;
        while i < cells.len()
            invariant
                i <= cells@.len(),
                forall|c: (i32, i32)|
                    s@.contains(c) <==> exists|j: int|
                        0 <= j < i && (#[trigger] cells@[j]).cell() == c,
            decreases cells@.len() - i,
        {
            let ghost before = s@;
            s.add(&cells[i]);
            i += 1;
            assert forall|c: (i32, i32)|
                s@.contains(c) <==> exists|j: int|
                    0 <= j < i && (#[trigger] cells@[j]).cell() == c by {
                if s@.contains(c) {
                    if before.contains(c) {
                        let j = choose|j: int| 0 <= j < i - 1 && (#[trigger] cells@[j]).cell() == c;
                        assert(0 <= j < i && cells@[j].cell() == c);
                    } else {
                        assert(cells@[i - 1].cell() == c);
                    }
                }
            }
        }
        s
    }
}

} // verus!
