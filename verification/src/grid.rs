//! The board as mathematics: its cells, their counting order, and the cells
//! that a set of occupied cells leaves free.

use vstd::prelude::*;
use vstd::arithmetic::div_mod::lemma_small_mod;
use crate::filtering::{
    lemma_filter_agree, lemma_filter_members, lemma_filter_no_duplicates, lemma_filter_split,
};

verus! {

/// The side of the grid, in cells.
pub const GRID_SIDE: u32 = 4;

/// The number of cells of the grid.
pub const GRID_CELLS: usize = 16;

/// A cell of the plane, as the pair of its coordinates `(x, y)`.
pub type Cell = (nat, nat);

/// Whether a cell lies on the grid.
pub open spec fn in_grid(cell: Cell) -> bool {
    cell.0 < GRID_SIDE && cell.1 < GRID_SIDE
}

/// The `i`-th cell of the grid, counting up each column in turn from `(0, 0)`.
pub open spec fn cell_at(i: int) -> Cell {
    ((i / GRID_SIDE as int) as nat, (i % GRID_SIDE as int) as nat)
}

/// The cells of the grid in counting order.
pub open spec fn all_cells() -> Seq<Cell> {
    Seq::new(GRID_CELLS as nat, |i: int| cell_at(i))
}

/// Whether `taken` leaves no cell of the grid free.
pub open spec fn covers_grid(taken: Set<Cell>) -> bool {
    forall|cell: Cell| in_grid(cell) ==> taken.contains(cell)
}

/// Whether every cell of `taken` lies on the grid.
pub open spec fn on_grid(taken: Set<Cell>) -> bool {
    forall|cell: Cell| taken.contains(cell) ==> in_grid(cell)
}

/// The cells of the grid that are not in `taken`, in counting order.
pub open spec fn free_cells(taken: Set<Cell>) -> Seq<Cell> {
    all_cells().filter(|cell: Cell| !taken.contains(cell))
}

/// The cell that a draw selects among `free`: the draw is reduced modulo the
/// number of cells and read as an index. Nothing is selected among no cells.
pub open spec fn chosen(free: Seq<Cell>, draw: nat) -> Option<Cell> {
    if free.len() == 0 {
        None
    } else {
        Some(free[(draw % free.len()) as int])
    }
}

/// The counting order lists each cell of the grid once, and nothing else.
pub proof fn lemma_all_cells()
    ensures
        GRID_CELLS == GRID_SIDE * GRID_SIDE,
        all_cells().len() == GRID_CELLS,
        all_cells().no_duplicates(),
        forall|cell: Cell| all_cells().contains(cell) <==> in_grid(cell),
{
    assert forall|cell: Cell| in_grid(cell) implies all_cells().contains(cell) by {
        let i = GRID_SIDE * cell.0 + cell.1;
        assert(all_cells()[i as int] == cell);
    }
}

/// A cell is free exactly when it lies on the grid and is not taken.
pub proof fn lemma_free_cells_members(taken: Set<Cell>, cell: Cell)
    ensures
        free_cells(taken).contains(cell) <==> in_grid(cell) && !taken.contains(cell),
{
    lemma_all_cells();
    lemma_filter_members(all_cells(), |c: Cell| !taken.contains(c), cell);
}

/// No free cell is listed twice.
pub proof fn lemma_free_cells_distinct(taken: Set<Cell>)
    ensures
        free_cells(taken).no_duplicates(),
{
    lemma_all_cells();
    lemma_filter_no_duplicates(all_cells(), |c: Cell| !taken.contains(c));
}

/// No cell is free exactly when every cell of the grid is taken.
pub proof fn lemma_free_cells_none(taken: Set<Cell>)
    ensures
        free_cells(taken).len() == 0 <==> covers_grid(taken),
{
    let free = free_cells(taken);
    if free.len() > 0 {
        assert(free.contains(free[0]));
        lemma_free_cells_members(taken, free[0]);
    }
    if !covers_grid(taken) {
        let cell = choose|cell: Cell| in_grid(cell) && !taken.contains(cell);
        lemma_free_cells_members(taken, cell);
    }
}

/// Cells taken outside the grid change nothing.
pub proof fn lemma_free_cells_ignore_outside(taken: Set<Cell>)
    ensures
        free_cells(taken) == free_cells(taken.filter(|cell: Cell| in_grid(cell))),
{
    lemma_all_cells();
    let inside = taken.filter(|cell: Cell| in_grid(cell));
    assert forall|i: int| 0 <= i < all_cells().len() implies !taken.contains(
        #[trigger] all_cells()[i],
    ) == !inside.contains(all_cells()[i]) by {
        assert(all_cells().contains(all_cells()[i]));
    }
    lemma_filter_agree(
        all_cells(),
        |c: Cell| !taken.contains(c),
        |c: Cell| !inside.contains(c),
    );
}

/// Taking `k` cells of the grid leaves the other `GRID_CELLS - k` free.
pub proof fn lemma_free_cells_count(taken: Set<Cell>)
    requires
        taken.finite(),
        on_grid(taken),
    ensures
        free_cells(taken).len() == GRID_CELLS - taken.len(),
{
    lemma_all_cells();
    let is_free = |c: Cell| !taken.contains(c);
    let is_taken = |c: Cell| taken.contains(c);
    let held = all_cells().filter(is_taken);
    lemma_filter_split(all_cells(), is_free, is_taken);
    lemma_filter_no_duplicates(all_cells(), is_taken);
    held.unique_seq_to_set();
    assert forall|cell: Cell| held.to_set().contains(cell) <==> taken.contains(cell) by {
        lemma_filter_members(all_cells(), is_taken, cell);
        assert(in_grid(cell) ==> all_cells().contains(cell));
    }
    assert(held.to_set() =~= taken);
}

/// Fewer taken cells than the grid has leave at least one free, wherever
/// the taken cells lie.
pub proof fn lemma_free_cells_some(taken: Set<Cell>)
    requires
        taken.finite(),
        taken.len() < GRID_CELLS,
    ensures
        free_cells(taken).len() > 0,
{
    let inside = taken.filter(|cell: Cell| in_grid(cell));
    taken.lemma_len_filter(|cell: Cell| in_grid(cell));
    lemma_free_cells_ignore_outside(taken);
    lemma_free_cells_count(inside);
}

/// As many cells of the grid as the grid has are all of them.
pub proof fn lemma_full_count_covers(taken: Set<Cell>)
    requires
        taken.finite(),
        on_grid(taken),
        taken.len() == GRID_CELLS,
    ensures
        covers_grid(taken),
{
    lemma_free_cells_count(taken);
    lemma_free_cells_none(taken);
}

/// Each free cell is selected by the draws of one residue class modulo the
/// number of free cells, and by no others: a draw that is uniform over the
/// residues selects uniformly among the free cells.
pub proof fn lemma_chosen_by_residue(taken: Set<Cell>, draw: nat, other: nat)
    requires
        !covers_grid(taken),
    ensures
        chosen(free_cells(taken), draw) is Some,
        free_cells(taken).contains(chosen(free_cells(taken), draw).unwrap()),
        chosen(free_cells(taken), draw) == chosen(free_cells(taken), other) <==> draw
            % free_cells(taken).len() == other % free_cells(taken).len(),
{
    lemma_free_cells_none(taken);
    lemma_free_cells_distinct(taken);
}

/// Every free cell is selected by some draw: the draw that is its index.
pub proof fn lemma_chosen_reaches(taken: Set<Cell>, i: nat)
    requires
        i < free_cells(taken).len(),
    ensures
        chosen(free_cells(taken), i) == Some(free_cells(taken)[i as int]),
{
    lemma_small_mod(i, free_cells(taken).len());
}

} // verus!
