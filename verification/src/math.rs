use vstd::prelude::*;

verus! {

/// A vector of two signed 32-bit integers.
#[derive(Clone, Copy, Debug, PartialEq, Eq, Structural, Hash, Default)]
pub struct IVec2 {
    pub x: i32,
    pub y: i32,
}

/// A vector of two unsigned 32-bit integers.
#[derive(Clone, Copy, Debug, PartialEq, Eq, Structural, Hash, Default)]
pub struct UVec2 {
    pub x: u32,
    pub y: u32,
}

impl IVec2 {
    pub fn new(x: i32, y: i32) -> (r: Self)
        ensures
            r.x == x,
            r.y == y,
    {
        IVec2 { x, y }
    }

    /// Component-wise sum; both components must stay within `i32`.
    pub fn add_vec(self, other: IVec2) -> (r: IVec2)
        requires
            i32::MIN <= self.x + other.x <= i32::MAX,
            i32::MIN <= self.y + other.y <= i32::MAX,
        ensures
            r.x == self.x + other.x,
            r.y == self.y + other.y,
    {
        IVec2 { x: self.x + other.x, y: self.y + other.y }
    }
}

impl UVec2 {
    pub fn new(x: u32, y: u32) -> (r: Self)
        ensures
            r.x == x,
            r.y == y,
    {
        UVec2 { x, y }
    }

    /// Component-wise sum; both components must stay within `u32`.
    pub fn add_vec(self, other: UVec2) -> (r: UVec2)
        requires
            self.x + other.x <= u32::MAX,
            self.y + other.y <= u32::MAX,
        ensures
            r.x == self.x + other.x,
            r.y == self.y + other.y,
    {
        UVec2 { x: self.x + other.x, y: self.y + other.y }
    }

    /// Component-wise minimum.
    pub fn min_vec(self, other: UVec2) -> (r: UVec2)
        ensures
            r.x == (if self.x <= other.x { self.x } else { other.x }),
            r.y == (if self.y <= other.y { self.y } else { other.y }),
    {
        UVec2 {
            x: if self.x <= other.x { self.x } else { other.x },
            y: if self.y <= other.y { self.y } else { other.y },
        }
    }

    /// Component-wise maximum.
    pub fn max_vec(self, other: UVec2) -> (r: UVec2)
        ensures
            r.x == (if self.x >= other.x { self.x } else { other.x }),
            r.y == (if self.y >= other.y { self.y } else { other.y }),
    {
        UVec2 {
            x: if self.x >= other.x { self.x } else { other.x },
            y: if self.y >= other.y { self.y } else { other.y },
        }
    }
}

} // verus!
