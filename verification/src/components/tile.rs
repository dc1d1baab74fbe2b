use vstd::prelude::*;
use vstd::arithmetic::power2::{lemma2_to64, pow2};

verus! {

/// The number that a tile of the given value shows: `2^(value + 1)`.
pub open spec fn shown_number(value: nat) -> nat {
    pow2(value + 1)
}

/// The value of a tile, held as an exponent: a value of 0 shows the number
/// 2, a value of 3 shows 16, a value of 10 shows 2048. Held so, the value
/// can serve as an index into a sheet of tile images.
#[derive(Debug, Clone, Copy)]
pub struct Tile {
    value: u32,
}

impl View for Tile {
    type V = nat;

    closed spec fn view(&self) -> nat {
        self.value as nat
    }
}

impl Tile {
    /// A tile of value zero, which shows the number 2.
    pub fn new() -> (tile: Tile)
        ensures
            tile@ == 0,
            shown_number(tile@) == 2,
    {
        proof {
            lemma2_to64();
        }
        Tile { value: 0 }
    }

    /// The tile that a draw gives: value 0 for an even draw, value 1 for an
    /// odd one.
    pub fn from_draw(draw: u32) -> (tile: Tile)
        ensures
            tile@ == draw % 2,
            shown_number(tile@) == if draw % 2 == 0 { 2nat } else { 4nat },
    {
        proof {
            lemma2_to64();
        }
        Tile { value: draw % 2 }
    }

    /// A tile of value 0 or 1, by a draw from the thread's generator: the
    /// game sometimes brings up a tile that shows 4 instead of 2.
    pub fn new_random() -> (tile: Tile)
        ensures
            tile@ == 0 || tile@ == 1,
            shown_number(tile@) == 2 || shown_number(tile@) == 4,
    {
        let draw: u32 = rand::random::<u32>();
        Tile::from_draw(draw)
    }

    /// The value held.
    pub fn value(&self) -> (value: u32)
        ensures
            value == self@,
    {
        self.value
    }
}

impl Default for Tile {
    /// The tile of value zero.
    fn default() -> (tile: Tile)
        ensures
            tile@ == 0,
    {
        Tile::new()
    }
}

} // verus!
