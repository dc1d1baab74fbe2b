use vstd::prelude::*;
use vstd::std_specs::iter::IteratorSpec;
use crate::components::position::{occupied, Position};
use crate::components::tile::Tile;
use crate::error::GridFullError;
use crate::grid::{chosen, covers_grid, free_cells, in_grid, on_grid, Cell, GRID_CELLS};

verus! {

/// A tile to be put on the board: the one position and the one value that
/// the new entity is to carry.
#[derive(Debug, Clone, Copy)]
pub struct GameTile {
    position: Position,
    tile: Tile,
}

impl View for GameTile {
    type V = (Cell, nat);

    closed spec fn view(&self) -> (Cell, nat) {
        (self.position@, self.tile@)
    }
}

impl GameTile {
    /// The tile that two draws give: the first selects the position among
    /// the cells that none of `used_positions` lies on, as `Position::pick`
    /// says, the second the value, as `Tile::from_draw` says. Fails when no
    /// cell is free, whatever the draws. The iterator must be one that ends.
    pub fn with_draws<'a, IP: Iterator<Item = &'a Position>>(
        used_positions: IP,
        position_draw: usize,
        tile_draw: u32,
    ) -> (made: Result<GameTile, GridFullError>)
        requires
            used_positions.obeys_prophetic_iter_laws(),
            used_positions.decrease() is Some,
        ensures
            match made {
                Ok(game_tile) => chosen(
                    free_cells(occupied(used_positions.remaining())),
                    position_draw as nat,
                ) == Some(game_tile@.0) && game_tile@.1 == tile_draw % 2,
                Err(_) => chosen(
                    free_cells(occupied(used_positions.remaining())),
                    position_draw as nat,
                ) is None,
            },
            made is Err <==> covers_grid(occupied(used_positions.remaining())),
            used_positions.remaining().len() < GRID_CELLS ==> made is Ok,
    {
        match Position::pick(used_positions, position_draw) {
            Ok(position) => Ok(GameTile { position, tile: Tile::from_draw(tile_draw) }),
            Err(full) => Err(full),
        }
    }

    /// A tile of random value, 0 or 1, on a random cell that none of
    /// `used_positions` lies on. The position is drawn first, then the
    /// value; when the grid is full no tile is made, and the failure of the
    /// position is handed on as it came. The iterator must be one that ends.
    pub fn new_random<'a, IP: Iterator<Item = &'a Position>>(used_positions: IP) -> (made: Result<
        GameTile,
        GridFullError,
    >)
        requires
            used_positions.obeys_prophetic_iter_laws(),
            used_positions.decrease() is Some,
        ensures
            made is Err <==> covers_grid(occupied(used_positions.remaining())),
            made matches Ok(game_tile) ==> {
                &&& in_grid(game_tile@.0)
                &&& !occupied(used_positions.remaining()).contains(game_tile@.0)
                &&& (game_tile@.1 == 0 || game_tile@.1 == 1)
            },
            used_positions.remaining().len() < GRID_CELLS ==> made is Ok,
            on_grid(occupied(used_positions.remaining())) && occupied(
                used_positions.remaining(),
            ).len() == GRID_CELLS ==> made is Err,
    {
        match Position::new_random(used_positions) {
            Ok(position) => Ok(GameTile { position, tile: Tile::new_random() }),
            Err(full) => Err(full),
        }
    }

    /// The position that the tile is to stand on.
    pub fn position(&self) -> (position: Position)
        ensures
            position@ == self@.0,
    {
        self.position
    }

    /// The value that the tile is to carry.
    pub fn tile(&self) -> (tile: Tile)
        ensures
            tile@ == self@.1,
    {
        self.tile
    }
}

} // verus!
