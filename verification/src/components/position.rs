use vstd::prelude::*;
use vstd::seq_lib::seq_to_set_is_finite;
use vstd::std_specs::iter::IteratorSpec;
use crate::error::GridFullError;
use crate::filtering::{
    lemma_filter_agree, lemma_filter_keeps_all, lemma_filter_twice, lemma_remove_is_filter,
};
use crate::grid::{
    all_cells, cell_at, chosen, covers_grid, free_cells, in_grid, lemma_free_cells_distinct,
    lemma_free_cells_members, lemma_free_cells_none, lemma_free_cells_some,
    lemma_full_count_covers, on_grid, Cell, GRID_CELLS, GRID_SIDE,
};

verus! {

/// The cells of a sequence of positions, in order.
pub open spec fn cells_of(positions: Seq<Position>) -> Seq<Cell> {
    positions.map_values(|p: Position| p@)
}

/// The set of cells on which the positions of `used` lie.
pub open spec fn occupied(used: Seq<&Position>) -> Set<Cell> {
    used.map_values(|p: &Position| p@).to_set()
}

/// A logic coordinate on the grid. The origin `(0, 0)` is the bottom-left
/// cell; on the grid of the game the largest coordinate is `(3, 3)`.
#[derive(Debug, Clone, Copy, PartialEq, Eq, Structural, Hash)]
pub struct Position {
    x: u32,
    y: u32,
}

impl View for Position {
    type V = Cell;

    closed spec fn view(&self) -> Cell {
        (self.x as nat, self.y as nat)
    }
}

impl Position {
    /// The position with the given coordinates. They are not held to the
    /// grid: whoever builds a position outside it answers for its use.
    pub fn new(x: u32, y: u32) -> (position: Position)
        ensures
            position@ == (x as nat, y as nat),
    {
        Position { x, y }
    }

    /// The horizontal coordinate.
    pub fn x(&self) -> (x: u32)
        ensures
            x == self@.0,
    {
        self.x
    }

    /// The vertical coordinate.
    pub fn y(&self) -> (y: u32)
        ensures
            y == self@.1,
    {
        self.y
    }

    /// Every cell of the grid, in counting order.
    pub fn all() -> (cells: Vec<Position>)
        ensures
            cells_of(cells@) == all_cells(),
    {
        let mut cells: Vec<Position> = Vec::new();
        let mut x: u32 = 0;
        while x < GRID_SIDE
            invariant
                x <= GRID_SIDE,
                cells@.len() == GRID_SIDE * x,
                forall|i: int| 0 <= i < cells@.len() ==> (#[trigger] cells@[i])@ == cell_at(i),
            decreases GRID_SIDE - x,
        {
            let mut y: u32 = 0;
            while y < GRID_SIDE
                invariant
                    x < GRID_SIDE,
                    y <= GRID_SIDE,
                    cells@.len() == GRID_SIDE * x + y,
                    forall|i: int| 0 <= i < cells@.len() ==> (#[trigger] cells@[i])@ == cell_at(i),
                decreases GRID_SIDE - y,
            {
                cells.push(Position::new(x, y));
                y += 1;
            }
            x += 1;
        }
        assert(cells_of(cells@) =~= all_cells());
        cells
    }

    /// Takes `gone` out of `potential`, where it is listed.
    fn discard(potential: &mut Vec<Position>, gone: &Position)
        requires
            cells_of(old(potential)@).no_duplicates(),
        ensures
            cells_of(final(potential)@) == cells_of(old(potential)@).filter(
                |cell: Cell| cell != gone@,
            ),
    {
        let ghost before = cells_of(potential@);
        let mut i: usize = 0;
        while i < potential.len()
            invariant
                i <= potential.len(),
                cells_of(potential@) == before,
                before == cells_of(old(potential)@),
                before.no_duplicates(),
                forall|j: int| 0 <= j < i ==> #[trigger] before[j] != gone@,
            decreases potential.len() - i,
        {
            if potential[i] == *gone {
                potential.remove(i);
                proof {
                    lemma_remove_is_filter(before, i as int);
                    assert(cells_of(potential@) =~= before.remove(i as int));
                    lemma_filter_agree(
                        before,
                        |cell: Cell| cell != before[i as int],
                        |cell: Cell| cell != gone@,
                    );
                }
                return ;
            }
            i += 1;
        }
        proof {
            lemma_filter_keeps_all(before, |cell: Cell| cell != gone@);
        }
    }

    /// The cells of the grid that none of `used_positions` lies on, in
    /// counting order. The positions may repeat and may lie outside the grid.
    /// The iterator must be one that ends, as one over a slice does.
    pub fn unused<'a, IP: Iterator<Item = &'a Position>>(used_positions: IP) -> (free: Vec<
        Position,
    >)
        requires
            used_positions.obeys_prophetic_iter_laws(),
            used_positions.decrease() is Some,
        ensures
            cells_of(free@) == free_cells(occupied(used_positions.remaining())),
    {
        let mut potential = Position::all();
        let mut rest = used_positions;
        let ghost mut seen: Seq<&Position> = Seq::empty();
        proof {
            assert(occupied(seen) =~= Set::empty());
            lemma_filter_keeps_all(all_cells(), |cell: Cell| !occupied(seen).contains(cell));
        }
        loop
            invariant
                rest.obeys_prophetic_iter_laws(),
                rest.decrease() is Some,
                used_positions.remaining() == seen + rest.remaining(),
                cells_of(potential@) == free_cells(occupied(seen)),
            ensures
                cells_of(potential@) == free_cells(occupied(used_positions.remaining())),
            decreases rest.decrease()->0,
        {
            match rest.next() {
                Some(p) => {
                    proof {
                        lemma_free_cells_distinct(occupied(seen));
                    }
                    Position::discard(&mut potential, p);
                    proof {
                        let ghost more = seen.push(p);
                        lemma_occupied_push(seen, p);
                        lemma_filter_twice(
                            all_cells(),
                            |cell: Cell| !occupied(seen).contains(cell),
                            |cell: Cell| cell != p@,
                        );
                        lemma_filter_agree(
                            all_cells(),
                            |cell: Cell|
                                (|cell: Cell| !occupied(seen).contains(cell))(cell) && (|cell: Cell|
                                    cell != p@)(cell),
                            |cell: Cell| !occupied(more).contains(cell),
                        );
                        assert(more + rest.remaining() =~= used_positions.remaining());
                        seen = more;
                    }
                },
                None => {
                    assert(seen =~= used_positions.remaining());
                    break ;
                },
            }
        }
        potential
    }

    /// The free cell that `draw` selects: the cells that none of
    /// `used_positions` lies on are listed in counting order, and the draw,
    /// reduced modulo their number, is the index of the one returned. Fails
    /// when no cell is free. The iterator must be one that ends.
    pub fn pick<'a, IP: Iterator<Item = &'a Position>>(used_positions: IP, draw: usize) -> (picked:
        Result<Position, GridFullError>)
        requires
            used_positions.obeys_prophetic_iter_laws(),
            used_positions.decrease() is Some,
        ensures
            match picked {
                Ok(position) => chosen(
                    free_cells(occupied(used_positions.remaining())),
                    draw as nat,
                ) == Some(position@),
                Err(_) => chosen(free_cells(occupied(used_positions.remaining())), draw as nat)
                    is None,
            },
            picked is Err <==> covers_grid(occupied(used_positions.remaining())),
            picked matches Ok(position) ==> in_grid(position@) && !occupied(
                used_positions.remaining(),
            ).contains(position@),
            used_positions.remaining().len() < GRID_CELLS ==> picked is Ok,
            on_grid(occupied(used_positions.remaining())) && occupied(
                used_positions.remaining(),
            ).len() == GRID_CELLS ==> picked is Err,
    {
        let potential = Position::unused(used_positions);
        assert(potential@.len() == 0 <==> covers_grid(occupied(used_positions.remaining()))) by {
            lemma_free_cells_none(occupied(used_positions.remaining()));
        }
        assert(used_positions.remaining().len() < GRID_CELLS ==> potential@.len() > 0) by {
            lemma_occupied_bound(used_positions.remaining());
            if used_positions.remaining().len() < GRID_CELLS {
                lemma_free_cells_some(occupied(used_positions.remaining()));
            }
        }
        assert(on_grid(occupied(used_positions.remaining())) && occupied(
            used_positions.remaining(),
        ).len() == GRID_CELLS ==> potential@.len() == 0) by {
            lemma_occupied_bound(used_positions.remaining());
            if on_grid(occupied(used_positions.remaining())) && occupied(
                used_positions.remaining(),
            ).len() == GRID_CELLS {
                lemma_full_count_covers(occupied(used_positions.remaining()));
            }
        }
        if potential.len() == 0 {
            Err(GridFullError)
        } else {
            let at = draw % potential.len();
            assert(in_grid(potential@[at as int]@) && !occupied(
                used_positions.remaining(),
            ).contains(potential@[at as int]@)) by {
                let free = cells_of(potential@);
                assert(free.contains(free[at as int]));
                lemma_free_cells_members(occupied(used_positions.remaining()), free[at as int]);
            }
            Ok(potential[at])
        }
    }

    /// A position drawn at random among the cells of the grid that none of
    /// `used_positions` lies on, or the failure that the grid is full. The
    /// draw comes from the thread's generator and selects as `pick` says.
    /// The iterator must be one that ends.
    pub fn new_random<'a, IP: Iterator<Item = &'a Position>>(used_positions: IP) -> (made: Result<
        Position,
        GridFullError,
    >)
        requires
            used_positions.obeys_prophetic_iter_laws(),
            used_positions.decrease() is Some,
        ensures
            made is Err <==> covers_grid(occupied(used_positions.remaining())),
            made matches Ok(position) ==> in_grid(position@) && !occupied(
                used_positions.remaining(),
            ).contains(position@),
            used_positions.remaining().len() < GRID_CELLS ==> made is Ok,
            on_grid(occupied(used_positions.remaining())) && occupied(
                used_positions.remaining(),
            ).len() == GRID_CELLS ==> made is Err,
    {
        let draw: usize = rand::random::<usize>();
        Position::pick(used_positions, draw)
    }
}

impl Default for Position {
    /// The origin of the grid.
    fn default() -> (position: Position)
        ensures
            position@ == (0nat, 0nat),
    {
        Position::new(0, 0)
    }
}

/// A cell has one position: two positions are equal exactly when they lie on
/// the same cell.
pub proof fn lemma_one_position_per_cell(a: Position, b: Position)
    ensures
        a@ == b@ <==> a == b,
{
}

/// A cell is occupied exactly when one of the positions lies on it.
pub proof fn lemma_occupied_members(used: Seq<&Position>, cell: Cell)
    ensures
        occupied(used).contains(cell) <==> exists|i: int|
            0 <= i < used.len() && (#[trigger] used[i])@ == cell,
{
    let cells = used.map_values(|p: &Position| p@);
    if cells.contains(cell) {
        let i = choose|i: int| 0 <= i < cells.len() && cells[i] == cell;
        assert(used[i]@ == cell);
    }
    if exists|i: int| 0 <= i < used.len() && (#[trigger] used[i])@ == cell {
        let i = choose|i: int| 0 <= i < used.len() && (#[trigger] used[i])@ == cell;
        assert(cells[i] == cell);
    }
}

/// Positions occupy at most as many cells as there are positions.
pub proof fn lemma_occupied_bound(used: Seq<&Position>)
    ensures
        occupied(used).finite(),
        occupied(used).len() <= used.len(),
{
    let cells = used.map_values(|p: &Position| p@);
    seq_to_set_is_finite(cells);
    cells.lemma_cardinality_of_set();
}

/// One more position occupies one more cell, or one that was occupied.
pub proof fn lemma_occupied_push(used: Seq<&Position>, next: &Position)
    ensures
        occupied(used.push(next)) == occupied(used).insert(next@),
{
    let cells = used.map_values(|p: &Position| p@);
    assert(used.push(next).map_values(|p: &Position| p@) =~= cells.push(next@));
    cells.lemma_push_to_set_commute(next@);
}

} // verus!
