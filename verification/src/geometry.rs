//! Integer grid geometry: positions, sizes, rectangular areas and the four
//! cardinal directions.

use vstd::prelude::*;

verus! {

/// A point on the integer grid. `x` grows eastwards, `y` grows southwards.
#[derive(Clone, Copy, Debug, PartialEq, Eq, Hash, Structural)]
pub struct Position {
    pub x: i32,
    pub y: i32,
}

impl Position {
    pub fn new(x: i32, y: i32) -> (p: Position)
        ensures
            p.x == x,
            p.y == y,
    {
        Position { x, y }
    }

    /// The origin `(0, 0)`.
    pub fn zero() -> (p: Position)
        ensures
            p.x == 0,
            p.y == 0,
    {
        Position { x: 0, y: 0 }
    }

    pub fn x(&self) -> (x: i32)
        ensures
            x == self.x,
    {
        self.x
    }

    pub fn y(&self) -> (y: i32)
        ensures
            y == self.y,
    {
        self.y
    }

    /// Whether the component-wise sum `self + other` is representable.
    pub open spec fn sum_fits(self, other: Position) -> bool {
        &&& i32::MIN <= self.x + other.x <= i32::MAX
        &&& i32::MIN <= self.y + other.y <= i32::MAX
    }

    /// Whether the component-wise difference `self - other` is representable.
    pub open spec fn difference_fits(self, other: Position) -> bool {
        &&& i32::MIN <= self.x - other.x <= i32::MAX
        &&& i32::MIN <= self.y - other.y <= i32::MAX
    }

    /// The component-wise sum, meaningful where `sum_fits` holds.
    pub open spec fn plus(self, other: Position) -> Position {
        Position { x: (self.x + other.x) as i32, y: (self.y + other.y) as i32 }
    }

    /// The component-wise difference, meaningful where `difference_fits` holds.
    pub open spec fn minus(self, other: Position) -> Position {
        Position { x: (self.x - other.x) as i32, y: (self.y - other.y) as i32 }
    }

    /// Component-wise addition; `None` exactly when a coordinate would leave
    /// the representable range.
    pub fn checked_add(self, other: Position) -> (sum: Option<Position>)
        ensures
            sum.is_some() <==> self.sum_fits(other),
            sum.is_some() ==> sum.unwrap() == self.plus(other),
    {
        match (self.x.checked_add(other.x), self.y.checked_add(other.y)) {
            (Some(x), Some(y)) => Some(Position { x, y }),
            _ => None,
        }
    }

    /// Component-wise subtraction; `None` exactly when a coordinate would
    /// leave the representable range.
    pub fn checked_sub(self, other: Position) -> (difference: Option<Position>)
        ensures
            difference.is_some() <==> self.difference_fits(other),
            difference.is_some() ==> difference.unwrap() == self.minus(other),
    {
        match (self.x.checked_sub(other.x), self.y.checked_sub(other.y)) {
            (Some(x), Some(y)) => Some(Position { x, y }),
            _ => None,
        }
    }
}

/// The extent of a rectangle, in tiles.
#[derive(Clone, Copy, Debug, PartialEq, Eq, Hash, Structural)]
pub struct Size {
    pub width: u32,
    pub height: u32,
}

impl Size {
    pub fn new(width: u32, height: u32) -> (s: Size)
        ensures
            s.width == width,
            s.height == height,
    {
        Size { width, height }
    }

    /// The empty extent `0 x 0`.
    pub fn zero() -> (s: Size)
        ensures
            s.width == 0,
            s.height == 0,
    {
        Size { width: 0, height: 0 }
    }

    pub fn width(&self) -> (w: u32)
        ensures
            w == self.width,
    {
        self.width
    }

    pub fn height(&self) -> (h: u32)
        ensures
            h == self.height,
    {
        self.height
    }

    pub open spec fn spec_is_zero(&self) -> bool {
        self.width == 0 && self.height == 0
    }

    /// Whether both dimensions are zero.
    #[verifier::when_used_as_spec(spec_is_zero)]
    pub fn is_zero(&self) -> (z: bool)
        ensures
            z == self.spec_is_zero(),
    {
        self.width == 0 && self.height == 0
    }
}

/// A rectangle of tiles: the positions `(x, y)` with
/// `left <= x < left + width` and `top <= y < top + height`.
#[derive(Clone, Copy, Debug, PartialEq, Eq, Hash, Structural)]
pub struct Area {
    pub position: Position,
    pub size: Size,
}

impl Area {
    pub fn new(position: Position, size: Size) -> (a: Area)
        ensures
            a.position == position,
            a.size == size,
    {
        Area { position, size }
    }

    /// The rectangle of the given extent whose top-left corner is the origin.
    pub fn from_size(size: Size) -> (a: Area)
        ensures
            a.position == (Position { x: 0, y: 0 }),
            a.size == size,
    {
        Area { position: Position { x: 0, y: 0 }, size }
    }

    pub fn position(&self) -> (p: Position)
        ensures
            p == self.position,
    {
        self.position
    }

    pub fn size(&self) -> (s: Size)
        ensures
            s == self.size,
    {
        self.size
    }

    pub fn width(&self) -> (w: u32)
        ensures
            w == self.size.width,
    {
        self.size.width
    }

    pub fn height(&self) -> (h: u32)
        ensures
            h == self.size.height,
    {
        self.size.height
    }

    /// The column of the westernmost tiles.
    pub open spec fn spec_left(&self) -> int {
        self.position.x as int
    }

    /// The row of the northernmost tiles.
    pub open spec fn spec_top(&self) -> int {
        self.position.y as int
    }

    /// The column of the easternmost tiles; `left - 1` for an area without
    /// columns.
    pub open spec fn spec_right(&self) -> int {
        self.position.x + self.size.width - 1
    }

    /// The row of the southernmost tiles; `top - 1` for an area without rows.
    pub open spec fn spec_bottom(&self) -> int {
        self.position.y + self.size.height - 1
    }

    pub fn left(&self) -> (x: i64)
        ensures
            x == self.spec_left(),
    {
        self.position.x as i64
    }

    pub fn top(&self) -> (y: i64)
        ensures
            y == self.spec_top(),
    {
        self.position.y as i64
    }

    pub fn right(&self) -> (x: i64)
        ensures
            x == self.spec_right(),
    {
        self.position.x as i64 + self.size.width as i64 - 1
    }

    pub fn bottom(&self) -> (y: i64)
        ensures
            y == self.spec_bottom(),
    {
        self.position.y as i64 + self.size.height as i64 - 1
    }

    /// Whether the tile at column `x` and row `y` lies in the rectangle.
    pub open spec fn covers(&self, x: int, y: int) -> bool {
        &&& self.spec_left() <= x <= self.spec_right()
        &&& self.spec_top() <= y <= self.spec_bottom()
    }

    /// Whether the tile at column `x` and row `y` lies on the rim of the
    /// rectangle: in its first or last column, or in its first or last row.
    pub open spec fn on_border(&self, x: int, y: int) -> bool {
        &&& self.covers(x, y)
        &&& (x == self.spec_left() || x == self.spec_right() || y == self.spec_top() || y
            == self.spec_bottom())
    }

    /// How `position` relates to the rectangle.
    pub open spec fn containment_of(&self, position: Position) -> Containment {
        if !self.covers(position.x as int, position.y as int) {
            Containment::Disjoint
        } else if self.on_border(position.x as int, position.y as int) {
            Containment::Intersects
        } else {
            Containment::Contains
        }
    }

    /// Classifies `position` as outside the rectangle, on its rim, or
    /// strictly inside it.
    pub fn contains_position(&self, position: Position) -> (c: Containment)
        ensures
            c == self.containment_of(position),
    {
        let x: i64 = position.x as i64;
        let y: i64 = position.y as i64;
        let left: i64 = self.left();
        let right: i64 = self.right();
        let top: i64 = self.top();
        let bottom: i64 = self.bottom();
        if x < left || x > right || y < top || y > bottom {
            Containment::Disjoint
        } else if x == left || x == right || y == top || y == bottom {
            Containment::Intersects
        } else {
            Containment::Contains
        }
    }

    /// Whether `position` lies in the rectangle, rim included.
    pub fn intersects_position(&self, position: Position) -> (inside: bool)
        ensures
            inside == self.covers(position.x as int, position.y as int),
    {
        let x: i64 = position.x as i64;
        let y: i64 = position.y as i64;
        self.left() <= x && x <= self.right() && self.top() <= y && y <= self.bottom()
    }
}

/// How a position relates to a rectangle.
#[derive(Clone, Copy, Debug, PartialEq, Eq, Hash, Structural)]
pub enum Containment {
    /// The position lies outside the rectangle.
    Disjoint,
    /// The position lies on the rim of the rectangle.
    Intersects,
    /// The position lies strictly inside the rectangle.
    Contains,
}

/// One of the four directions along the grid axes.
#[derive(Clone, Copy, Debug, PartialEq, Eq, Hash, Structural)]
pub enum CardinalDirection {
    North,
    East,
    South,
    West,
}

impl CardinalDirection {
    pub open spec fn spec_opposite(self) -> CardinalDirection {
        match self {
            CardinalDirection::North => CardinalDirection::South,
            CardinalDirection::East => CardinalDirection::West,
            CardinalDirection::South => CardinalDirection::North,
            CardinalDirection::West => CardinalDirection::East,
        }
    }

    /// The direction pointing the other way along the same axis.
    #[verifier::when_used_as_spec(spec_opposite)]
    pub fn opposite(self) -> (d: CardinalDirection)
        ensures
            d == self.spec_opposite(),
    {
        match self {
            CardinalDirection::North => CardinalDirection::South,
            CardinalDirection::East => CardinalDirection::West,
            CardinalDirection::South => CardinalDirection::North,
            CardinalDirection::West => CardinalDirection::East,
        }
    }
}

} // verus!
