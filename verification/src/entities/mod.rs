//! What is put on the board.

pub mod game_tiles;

pub use game_tiles::GameTile;
