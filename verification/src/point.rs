use vstd::prelude::*;

verus! {

/// Largest coordinate magnitude the kernel accepts.
///
/// Coordinates are fixed-point integers in a caller-chosen unit (for example
/// one millimetre per unit). The bound keeps every intermediate product of
/// the geometric predicates inside 128-bit arithmetic.
pub const COORD_LIMIT: i64 = 100_000;

/// Largest distance-like tolerance the kernel accepts, in coordinate units.
pub const TOLERANCE_LIMIT: i64 = 1_000_000;

/// Largest area-like precision the kernel accepts, in squared coordinate
/// units.
pub const PRECISION_LIMIT: i64 = 1_000_000_000;

/// A position in 3D space, in fixed-point coordinate units.
///
/// `x` grows to the east, `y` to the north, `z` upward. A point is a value
/// with no identity and is freely copied.
#[derive(Clone, Copy, PartialEq, Eq, Structural, Debug)]
pub struct Point {
    /// The east coordinate.
    pub x: i64,
    /// The north coordinate.
    pub y: i64,
    /// The height coordinate.
    pub z: i64,
}

/// A single coordinate is within the range the kernel accepts.
pub open spec fn coord_in_range(c: int) -> bool {
    -(COORD_LIMIT as int) <= c <= COORD_LIMIT as int
}

impl Point {
    /// All three coordinates are within the range the kernel accepts.
    pub open spec fn wf(self) -> bool {
        coord_in_range(self.x as int) && coord_in_range(self.y as int) && coord_in_range(
            self.z as int,
        )
    }

    /// Move the point by a displacement.
    pub fn move_by_vector(&mut self, distance: &crate::vector::Vector)
        requires
            coord_in_range(old(self).x + distance.x),
            coord_in_range(old(self).y + distance.y),
            coord_in_range(old(self).z + distance.z),
        ensures
            final(self).x == old(self).x + distance.x,
            final(self).y == old(self).y + distance.y,
            final(self).z == old(self).z + distance.z,
            final(self).wf(),
    {
        self.x = self.x + distance.x;
        self.y = self.y + distance.y;
        self.z = self.z + distance.z;
    }

    /// Move the point to a given position.
    pub fn move_to_position(&mut self, position: &Point)
        ensures
            *final(self) == *position,
    {
        self.x = position.x;
        self.y = position.y;
        self.z = position.z;
    }
}

} // verus!
