//! Draws the walls of a room.

use crate::dun_gen::DoesDunGen;
use crate::geometry::{Area, Containment, Position};
use crate::map::{lemma_with_tile_inside, MapId, MapModel, TileType};
use crate::providers::ProvidesPlacedShape;
use crate::registry::{lemma_with_map_wf, MapRegistry, RegistryModel};
use vstd::prelude::*;

verus! {

/// The rectangle that walls are drawn for when the generator is given
/// `shape` for `map`: the shape itself, or the whole map if the shape is
/// empty in both dimensions.
pub open spec fn effective_shape(shape: Area, map: MapModel) -> Area {
    if shape.size.width > 0 || shape.size.height > 0 {
        shape
    } else {
        map.area()
    }
}

/// Whether a wall is drawn in column `x` of row `y`: the cell lies on the
/// rim of `shape` and on the rim of the map, and the tile in it is not one
/// of those to keep.
pub open spec fn gets_wall(
    map: MapModel,
    shape: Area,
    dont_replace: Seq<Option<TileType>>,
    x: int,
    y: int,
) -> bool {
    &&& shape.on_border(x, y)
    &&& map.area().on_border(x, y)
    &&& !dont_replace.contains(Some(map.cell(x, y)))
}

/// The map after the walls have been drawn.
pub open spec fn walled(map: MapModel, shape: Area, dont_replace: Seq<Option<TileType>>) -> MapModel {
    map.repainted(
        map.width,
        map.rows.len(),
        |x: int, y: int|
            if gets_wall(map, shape, dont_replace, x, y) {
                Some(TileType::Wall)
            } else {
                None
            },
    )
}

/// Whether `check` is one of `tiles`.
pub fn contains_tile(tiles: &[Option<TileType>], check: &Option<TileType>) -> (found: bool)
    ensures
        found == tiles@.contains(*check),
{
    let mut i: usize = 0;
    while i < tiles.len()
        invariant
            i <= tiles@.len(),
            forall|k: int| 0 <= k < i ==> tiles@[k] != *check,
        decreases tiles.len() - i,
    {
        let same: bool = match (tiles[i], *check) {
            (Some(a), Some(b)) => a == b,
            (None, None) => true,
            _ => false,
        };
        if same {
            return true;
        }
        i = i + 1;
    }
    false
}

/// Turns the tiles that lie both on the rim of a rectangle and on the rim of
/// the map into walls, except for the kinds of tile to keep. A shape that is
/// empty in both dimensions stands for the whole map. The map does not grow.
pub struct WalledRoomGenerator<'a, TProvidesPlacedShape> where
    TProvidesPlacedShape: ProvidesPlacedShape + Sized,
 {
    provides_placed_shape: TProvidesPlacedShape,
    dont_replace: &'a [Option<TileType>],
}

impl<'a, TProvidesPlacedShape> WalledRoomGenerator<'a, TProvidesPlacedShape> where
    TProvidesPlacedShape: ProvidesPlacedShape + Sized,
 {
    pub closed spec fn provides_placed_shape(&self) -> TProvidesPlacedShape {
        self.provides_placed_shape
    }

    /// The kinds of tile that are kept.
    pub closed spec fn kept(&self) -> Seq<Option<TileType>> {
        self.dont_replace@
    }

    /// A generator that walls the shape that `provides_placed_shape` gives
    /// and keeps portal tiles.
    pub fn new(provides_placed_shape: TProvidesPlacedShape) -> (generator: Self)
        ensures
            generator.wf(),
            generator.provides_placed_shape() == provides_placed_shape,
            generator.kept() == seq![Some(TileType::Portal)],
    {
        Self { provides_placed_shape, dont_replace: &[Some(TileType::Portal)] }
    }

    /// A generator that walls the shape that `provides_placed_shape` gives
    /// and keeps the kinds of tile in `dont_replace`.
    pub fn with_filter(
        provides_placed_shape: TProvidesPlacedShape,
        dont_replace: &'a [Option<TileType>],
    ) -> (generator: Self)
        ensures
            generator.wf(),
            generator.provides_placed_shape() == provides_placed_shape,
            generator.kept() == dont_replace@,
    {
        Self { provides_placed_shape, dont_replace }
    }

    /// Whether `check` is a kind of tile to keep.
    pub fn dont_replace(&self, check: &Option<TileType>) -> (keep: bool)
        ensures
            keep == self.kept().contains(*check),
    {
        contains_tile(self.dont_replace, check)
    }
}

impl<'a, TProvidesPlacedShape> DoesDunGen for WalledRoomGenerator<'a, TProvidesPlacedShape> where
    TProvidesPlacedShape: ProvidesPlacedShape + Sized,
 {
    open spec fn wf(&self) -> bool {
        true
    }

    open spec fn effect(
        &self,
        after: &Self,
        before: RegistryModel,
        map_id: MapId,
        maps: RegistryModel,
    ) -> bool {
        &&& *after == *self
        &&& exists|shape: Area| #[trigger]
            self.provides_placed_shape().provides_placed_shape(shape) && maps == before.with_map(
                map_id,
                walled(
                    before.map(map_id),
                    effective_shape(shape, before.map(map_id)),
                    self.kept(),
                ),
            )
    }

    fn dun_gen_map(&mut self, maps: &mut MapRegistry, map_id: MapId) {
        let provided: Area = self.provides_placed_shape.provide_placed_shape();
        let map_area: Area = maps.read(map_id).area();
        let shape: Area = if provided.width() > 0 || provided.height() > 0 {
            provided
        } else {
            map_area
        };
        let ghost start = old(maps)@.map(map_id);
        let ghost kept = self.kept();
        let ghost mut current = start;
        proof {
            assert(old(self).provides_placed_shape().provides_placed_shape(provided));
            assert(old(maps)@.with_map(map_id, current).slots =~= old(maps)@.slots);
        }
        let width: i64 = map_area.size.width as i64;
        let height: i64 = map_area.size.height as i64;
        let first_column: i64 = if shape.left() < 0 {
            0
        } else {
            shape.left()
        };
        let first_row: i64 = if shape.top() < 0 {
            0
        } else {
            shape.top()
        };
        let last_column: i64 = if shape.right() < width {
            shape.right()
        } else {
            width - 1
        };
        let last_row: i64 = if shape.bottom() < height {
            shape.bottom()
        } else {
            height - 1
        };
        let mut y: i64 = first_row;
        while y <= last_row
            invariant
                self.wf(),
                *self == *old(self),
                kept == self.kept(),
                old(maps).wf(),
                old(maps)@.contains(map_id),
                start == old(maps)@.map(map_id),
                map_area == start.area(),
                maps.wf(),
                maps@ == old(maps)@.with_map(map_id, current),
                current.wf(),
                current.fixed == start.fixed,
                current.width == start.width,
                current.rows.len() == start.rows.len(),
                current.portals == start.portals,
                current.sub_maps == start.sub_maps,
                width == start.width,
                height == start.rows.len(),
                0 <= first_column,
                0 <= first_row <= y,
                last_column < width,
                last_row < height,
                first_column == (if shape.spec_left() < 0 { 0 } else { shape.spec_left() }),
                first_row == (if shape.spec_top() < 0 { 0 } else { shape.spec_top() }),
                last_column == (if shape.spec_right() < width { shape.spec_right() } else { width - 1 }),
                last_row == (if shape.spec_bottom() < height { shape.spec_bottom() } else { height - 1 }),
                forall|xx: int, yy: int|
                    start.covers(xx, yy) ==> #[trigger] current.cell(xx, yy) == if yy < y
                        && gets_wall(start, shape, kept, xx, yy) {
                        TileType::Wall
                    } else {
                        start.cell(xx, yy)
                    },
            decreases last_row + 1 - y,
        {
            let mut x: i64 = first_column;
            while x <= last_column
                invariant
                    self.wf(),
                    *self == *old(self),
                    kept == self.kept(),
                    old(maps).wf(),
                    old(maps)@.contains(map_id),
                    start == old(maps)@.map(map_id),
                    map_area == start.area(),
                    maps.wf(),
                    maps@ == old(maps)@.with_map(map_id, current),
                    current.wf(),
                    current.fixed == start.fixed,
                current.width == start.width,
                    current.rows.len() == start.rows.len(),
                    current.portals == start.portals,
                    current.sub_maps == start.sub_maps,
                    width == start.width,
                    height == start.rows.len(),
                    0 <= first_column <= x,
                    0 <= first_row <= y <= last_row,
                    last_column < width,
                    last_row < height,
                    first_column == (if shape.spec_left() < 0 { 0 } else { shape.spec_left() }),
                    first_row == (if shape.spec_top() < 0 { 0 } else { shape.spec_top() }),
                    last_column == (if shape.spec_right() < width { shape.spec_right() } else { width - 1 }),
                    last_row == (if shape.spec_bottom() < height { shape.spec_bottom() } else { height - 1 }),
                    forall|xx: int, yy: int|
                        start.covers(xx, yy) ==> #[trigger] current.cell(xx, yy) == if (yy < y || (
                        yy == y && xx < x)) && gets_wall(start, shape, kept, xx, yy) {
                            TileType::Wall
                        } else {
                            start.cell(xx, yy)
                        },
                decreases last_column + 1 - x,
            {
                let position: Position = Position::new(x as i32, y as i32);
                let tile: Option<TileType> = maps.read(map_id).tile_type_at_local(position);
                proof {
                    assert(start.covers(x as int, y as int));
                    assert(current.cell(x as int, y as int) == start.cell(x as int, y as int));
                }
                if !self.dont_replace(&tile) && shape.contains_position(position)
                    == Containment::Intersects && map_area.contains_position(position)
                    == Containment::Intersects {
                    let ghost previous = current;
                    maps.tile_type_at_local_set(map_id, position, TileType::Wall);
                    proof {
                        lemma_with_tile_inside(previous, position, TileType::Wall);
                        current = previous.with_tile(position, TileType::Wall);
                        assert(maps@.slots =~= old(maps)@.with_map(map_id, current).slots);
                        assert forall|xx: int, yy: int| start.covers(xx, yy) implies #[trigger] current.cell(
                            xx,
                            yy,
                        ) == if (yy < y || (yy == y && xx < x + 1)) && gets_wall(
                            start,
                            shape,
                            kept,
                            xx,
                            yy,
                        ) {
                            TileType::Wall
                        } else {
                            start.cell(xx, yy)
                        } by {
                            assert(previous.covers(xx, yy));
                        }
                    }
                }
                x = x + 1;
            }
            y = y + 1;
        }
        proof {
            let target = walled(start, shape, kept);
            assert(current.rows.len() == target.rows.len());
            assert forall|yy: int| 0 <= yy < current.rows.len() implies #[trigger] current.rows[yy]
                =~= target.rows[yy] by {
                assert forall|xx: int| 0 <= xx < current.width implies current.rows[yy][xx]
                    == target.rows[yy][xx] by {
                    assert(start.covers(xx, yy));
                    assert(current.cell(xx, yy) == current.rows[yy][xx]);
                }
            }
            assert(current.rows =~= target.rows);
        }
    }
}

} // verus!
