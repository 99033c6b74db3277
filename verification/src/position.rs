//! Two-dimensional integer coordinates and their arithmetic.

use vstd::prelude::*;
use vstd::std_specs::ops::AddSpecImpl;
use vstd::std_specs::ops::DivSpecImpl;
use vstd::std_specs::ops::MulSpecImpl;
use vstd::std_specs::ops::SubSpecImpl;

verus! {

/// A point of the grid, or an offset between two points.
#[derive(Copy, Clone, Debug, PartialEq, Eq, Structural)]
pub struct Position {
    pub x: i32,
    pub y: i32,
}

/// Whether `v` can be held in an `i32`.
pub open spec fn fits_i32(v: int) -> bool {
    i32::MIN <= v <= i32::MAX
}

/// Integer division that rounds towards zero, for a divisor other than zero:
/// the quotient of the magnitudes, negative where the signs differ.
pub open spec fn div_toward_zero(a: int, b: int) -> int {
    if a >= 0 {
        a / b
    } else {
        -((-a) / b)
    }
}

/// The position with the coordinates `x` and `y`, each of which fits in an `i32`.
pub open spec fn at(x: int, y: int) -> Position {
    Position { x: x as i32, y: y as i32 }
}

impl Position {
    /// The position in column `x` and row `y`.
    pub fn new(x: i32, y: i32) -> (p: Position)
        ensures
            p.x == x,
            p.y == y,
    {
        Position { x, y }
    }
}

impl AddSpecImpl<Position> for Position {
    open spec fn obeys_add_spec() -> bool {
        true
    }

    open spec fn add_req(self, rhs: Position) -> bool {
        fits_i32(self.x + rhs.x) && fits_i32(self.y + rhs.y)
    }

    open spec fn add_spec(self, rhs: Position) -> Position {
        Position { x: (self.x + rhs.x) as i32, y: (self.y + rhs.y) as i32 }
    }
}

impl std::ops::Add<Position> for Position {
    type Output = Position;

    fn add(self, rhs: Position) -> Position {
        Position::new(self.x + rhs.x, self.y + rhs.y)
    }
}

impl AddSpecImpl<[i32; 2]> for Position {
    open spec fn obeys_add_spec() -> bool {
        true
    }

    open spec fn add_req(self, rhs: [i32; 2]) -> bool {
        fits_i32(self.x + rhs[0]) && fits_i32(self.y + rhs[1])
    }

    open spec fn add_spec(self, rhs: [i32; 2]) -> Position {
        Position { x: (self.x + rhs[0]) as i32, y: (self.y + rhs[1]) as i32 }
    }
}

impl std::ops::Add<[i32; 2]> for Position {
    type Output = Position;

    fn add(self, rhs: [i32; 2]) -> Position {
        Position::new(self.x + rhs[0], self.y + rhs[1])
    }
}

impl SubSpecImpl<Position> for Position {
    open spec fn obeys_sub_spec() -> bool {
        true
    }

    open spec fn sub_req(self, rhs: Position) -> bool {
        fits_i32(self.x - rhs.x) && fits_i32(self.y - rhs.y)
    }

    open spec fn sub_spec(self, rhs: Position) -> Position {
        Position { x: (self.x - rhs.x) as i32, y: (self.y - rhs.y) as i32 }
    }
}

impl std::ops::Sub<Position> for Position {
    type Output = Position;

    fn sub(self, rhs: Position) -> Position {
        Position::new(self.x - rhs.x, self.y - rhs.y)
    }
}

impl SubSpecImpl<[i32; 2]> for Position {
    open spec fn obeys_sub_spec() -> bool {
        true
    }

    open spec fn sub_req(self, rhs: [i32; 2]) -> bool {
        fits_i32(self.x - rhs[0]) && fits_i32(self.y - rhs[1])
    }

    open spec fn sub_spec(self, rhs: [i32; 2]) -> Position {
        Position { x: (self.x - rhs[0]) as i32, y: (self.y - rhs[1]) as i32 }
    }
}

impl std::ops::Sub<[i32; 2]> for Position {
    type Output = Position;

    fn sub(self, rhs: [i32; 2]) -> Position {
        Position::new(self.x - rhs[0], self.y - rhs[1])
    }
}

impl MulSpecImpl<i32> for Position {
    open spec fn obeys_mul_spec() -> bool {
        true
    }

    open spec fn mul_req(self, rhs: i32) -> bool {
        fits_i32(self.x * rhs) && fits_i32(self.y * rhs)
    }

    open spec fn mul_spec(self, rhs: i32) -> Position {
        Position { x: (self.x * rhs) as i32, y: (self.y * rhs) as i32 }
    }
}

impl std::ops::Mul<i32> for Position {
    type Output = Position;

    fn mul(self, rhs: i32) -> Position {
        Position::new(self.x * rhs, self.y * rhs)
    }
}

impl DivSpecImpl<i32> for Position {
    open spec fn obeys_div_spec() -> bool {
        true
    }

    open spec fn div_req(self, rhs: i32) -> bool {
        rhs != 0 && fits_i32(div_toward_zero(self.x as int, rhs as int)) && fits_i32(
            div_toward_zero(self.y as int, rhs as int),
        )
    }

    open spec fn div_spec(self, rhs: i32) -> Position {
        Position {
            x: div_toward_zero(self.x as int, rhs as int) as i32,
            y: div_toward_zero(self.y as int, rhs as int) as i32,
        }
    }
}

impl std::ops::Div<i32> for Position {
    type Output = Position;

    fn div(self, rhs: i32) -> Position {
        Position::new(self.x / rhs, self.y / rhs)
    }
}

} // verus!
