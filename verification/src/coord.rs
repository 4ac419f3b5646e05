use vstd::prelude::*;

verus! {

/// One cell of the bounded three-dimensional grid.
#[derive(Clone, Copy, Debug, PartialEq, Eq, Structural, Hash)]
pub struct Coordinate {
    pub x: i32,
    pub y: i32,
    pub z: i32,
}

impl Coordinate {
    pub fn new(x: i32, y: i32, z: i32) -> (c: Coordinate)
        ensures
            c == (Coordinate { x, y, z }),
    {
        Coordinate { x, y, z }
    }
}

} // verus!
