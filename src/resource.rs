use vstd::prelude::*;

use crate::grid::Sprite;

verus! {

/// Kind of item that lies on the ground, is carried, or fills a buffer.
#[derive(Clone, Copy, PartialEq, Eq, Structural, Debug, Hash)]
pub struct Resource {
    pub index: u8,
}

impl Resource {
    pub fn new(index: u8) -> (r: Resource)
        ensures
            r.index == index,
    {
        Resource { index }
    }

    pub fn seaweed() -> (r: Resource)
        ensures
            r.index == 1,
    {
        Resource { index: 1 }
    }

    pub fn rock() -> (r: Resource)
        ensures
            r.index == 2,
    {
        Resource { index: 2 }
    }

    pub fn dryweed() -> (r: Resource)
        ensures
            r.index == 3,
    {
        Resource { index: 3 }
    }

    pub fn brick() -> (r: Resource)
        ensures
            r.index == 4,
    {
        Resource { index: 4 }
    }

    pub fn coal() -> (r: Resource)
        ensures
            r.index == 5,
    {
        Resource { index: 5 }
    }

    /// Resource sprites follow the first sixteen sprites of the atlas.
    pub fn sprite(&self) -> (r: Sprite)
        ensures
            r.0 == 16 + self.index,
    {
        Sprite(16 + self.index as u16)
    }

    /// Display name of the resource.
    pub fn name(&self) -> (r: String)
        ensures
            self.index == 1 ==> r@ == "SEAWEED"@,
            self.index == 2 ==> r@ == "ROCK"@,
            self.index == 3 ==> r@ == "DRYWEED"@,
            self.index == 4 ==> r@ == "BRICK"@,
            self.index == 5 ==> r@ == "COAL"@,
            !(1 <= self.index <= 5) ==> r@ == "Resource"@,
    {
        let s = if self.index == 1 {
            "SEAWEED"
        } else if self.index == 2 {
            "ROCK"
        } else if self.index == 3 {
            "DRYWEED"
        } else if self.index == 4 {
            "BRICK"
        } else if self.index == 5 {
            "COAL"
        } else {
            "Resource"
        };
        s.to_string()
    }
}

/// Local, non-fatal failure of a simulation operation.
#[derive(Clone, Copy, PartialEq, Eq, Structural, Debug)]
pub enum Error {
    Unspecified,
    Empty,
    Full,
    Mismatch,
    Unreachable,
}

} // verus!
