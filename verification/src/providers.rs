//! Sources of the counts, shapes and positions that generators work with.
//! A plain value provides itself; a range provides a random value in it.

use crate::geometry::{Area, Position, Size};
use crate::map::TileMap;
use crate::random::random_in_range;
use vstd::prelude::*;

verus! {

/// Whether `map_provider` can always be called and returns well-formed maps
/// without portals or embedded maps.
pub open spec fn provides_fresh_maps<TMapProvider: Fn() -> TileMap>(
    map_provider: TMapProvider,
) -> bool {
    &&& call_requires(map_provider, ())
    &&& forall|map: TileMap| #[trigger]
        call_ensures(map_provider, (), map) ==> map.wf() && map@.is_unlinked()
}

/// Says how many items a generator is to make.
pub trait ProvidesCount {
    /// Whether `count` is one of the counts this source can provide.
    spec fn provides_count(&self, count: usize) -> bool;

    fn provide_count(&self) -> (count: usize)
        ensures
            self.provides_count(count),
    ;
}

/// Says which rectangle a generator is to work on.
pub trait ProvidesPlacedShape {
    /// Whether `shape` is one of the rectangles this source can provide.
    spec fn provides_placed_shape(&self, shape: Area) -> bool;

    fn provide_placed_shape(&self) -> (shape: Area)
        ensures
            self.provides_placed_shape(shape),
    ;
}

/// Says where a generator is to place something.
pub trait ProvidesPosition {
    /// Whether `position` is one of the positions this source can provide.
    spec fn provides_position(&self, position: Position) -> bool;

    fn provide_position(&self) -> (position: Position)
        ensures
            self.provides_position(position),
    ;
}

impl ProvidesCount for usize {
    open spec fn provides_count(&self, count: usize) -> bool {
        count == *self
    }

    fn provide_count(&self) -> (count: usize) {
        *self
    }
}

impl ProvidesPlacedShape for Area {
    open spec fn provides_placed_shape(&self, shape: Area) -> bool {
        shape == *self
    }

    fn provide_placed_shape(&self) -> (shape: Area) {
        *self
    }
}

/// A size provides the rectangle of that size at the origin.
impl ProvidesPlacedShape for Size {
    open spec fn provides_placed_shape(&self, shape: Area) -> bool {
        shape == (Area { position: Position { x: 0, y: 0 }, size: *self })
    }

    fn provide_placed_shape(&self) -> (shape: Area) {
        Area::from_size(*self)
    }
}

impl ProvidesPosition for Position {
    open spec fn provides_position(&self, position: Position) -> bool {
        position == *self
    }

    fn provide_position(&self) -> (position: Position) {
        *self
    }
}

/// An area provides a random position among its tiles whose coordinates are
/// representable; an area without such a tile provides its own corner.
impl ProvidesPosition for Area {
    open spec fn provides_position(&self, position: Position) -> bool {
        if self.size.width == 0 || self.size.height == 0 {
            position == self.position
        } else {
            self.covers(position.x as int, position.y as int)
        }
    }

    fn provide_position(&self) -> (position: Position) {
        if self.size.width == 0 || self.size.height == 0 {
            return self.position;
        }
        let room_x: u64 = (2147483647i64 - self.position.x as i64) as u64 + 1;
        let room_y: u64 = (2147483647i64 - self.position.y as i64) as u64 + 1;
        let span_x: u64 = if (self.size.width as u64) < room_x {
            self.size.width as u64
        } else {
            room_x
        };
        let span_y: u64 = if (self.size.height as u64) < room_y {
            self.size.height as u64
        } else {
            room_y
        };
        let dx: u64 = random_in_range(0, span_x);
        let dy: u64 = random_in_range(0, span_y);
        Position {
            x: (self.position.x as i64 + dx as i64) as i32,
            y: (self.position.y as i64 + dy as i64) as i32,
        }
    }
}

/// A range of counts, both ends included.
#[derive(Clone, Copy, Debug, PartialEq, Eq, Hash, Structural)]
pub struct CountRange {
    pub start: usize,
    pub end: usize,
}

impl CountRange {
    pub fn new(start: usize, end: usize) -> (range: CountRange)
        ensures
            range.start == start,
            range.end == end,
    {
        CountRange { start, end }
    }
}

/// A range of counts provides a random count from `start` to `end`; a range
/// whose end lies before its start provides `start`.
impl ProvidesCount for CountRange {
    open spec fn provides_count(&self, count: usize) -> bool {
        if self.start < self.end {
            self.start <= count <= self.end
        } else {
            count == self.start
        }
    }

    fn provide_count(&self) -> (count: usize) {
        if self.start < self.end {
            let past_end: u64 = if self.end as u64 == u64::MAX {
                u64::MAX
            } else {
                self.end as u64 + 1
            };
            let drawn: u64 = random_in_range(self.start as u64, past_end);
            drawn as usize
        } else {
            self.start
        }
    }
}

/// A range of sizes, both ends included in each dimension.
#[derive(Clone, Copy, Debug, PartialEq, Eq, Hash, Structural)]
pub struct SizeRange {
    pub start: Size,
    pub end: Size,
}

impl SizeRange {
    pub fn new(start: Size, end: Size) -> (range: SizeRange)
        ensures
            range.start == start,
            range.end == end,
    {
        SizeRange { start, end }
    }

    /// Whether `length` can be drawn for a dimension that ranges from
    /// `start` to `end`.
    pub open spec fn provides_length(start: u32, end: u32, length: u32) -> bool {
        if start < end {
            start <= length <= end
        } else {
            length == start
        }
    }
}

/// Draws a length from `start` to `end`; `start` if the end lies before it.
fn random_length(start: u32, end: u32) -> (length: u32)
    ensures
        SizeRange::provides_length(start, end, length),
{
    if start < end {
        let above: u64 = random_in_range(0, (end - start) as u64 + 1);
        start + above as u32
    } else {
        start
    }
}

/// A range of sizes provides the rectangle at the origin whose width and
/// height are drawn at random from the range.
impl ProvidesPlacedShape for SizeRange {
    open spec fn provides_placed_shape(&self, shape: Area) -> bool {
        &&& shape.position == (Position { x: 0, y: 0 })
        &&& Self::provides_length(self.start.width, self.end.width, shape.size.width)
        &&& Self::provides_length(self.start.height, self.end.height, shape.size.height)
    }

    fn provide_placed_shape(&self) -> (shape: Area) {
        let width: u32 = random_length(self.start.width, self.end.width);
        let height: u32 = random_length(self.start.height, self.end.height);
        Area::from_size(Size { width, height })
    }
}

} // verus!
