//! The logic core of a 2048 board: grid positions, tile values, and the
//! generation of a new tile on a cell that no live tile occupies.

pub mod components;
pub mod entities;
pub mod error;
pub mod filtering;
pub mod grid;
pub mod rng;
