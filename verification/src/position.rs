//! The immutable 2D integer grid coordinate used as the universal map key,
//! and the four facing directions of mobile entities.

use vstd::prelude::*;

verus! {

/// A grid coordinate `(x, y)`, with `x` growing eastward and `y` growing
/// southward. Equality and hashing are by value.
#[derive(Clone, Copy, PartialEq, Eq, Structural, Hash, Debug)]
pub struct Position {
    pub x: u16,
    pub y: u16,
}

impl Position {
    pub fn new(x: u16, y: u16) -> (p: Position)
        ensures
            p.x == x,
            p.y == y,
    {
        Position { x, y }
    }
}

/// The four orthogonal facing directions.
#[derive(Clone, Copy, PartialEq, Eq, Structural, Hash, Debug)]
pub enum Direction {
    North,
    South,
    East,
    West,
}

} // verus!
