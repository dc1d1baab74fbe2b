//! The components that a tile entity carries.

pub mod position;
pub mod tile;

pub use position::Position;
pub use tile::Tile;
