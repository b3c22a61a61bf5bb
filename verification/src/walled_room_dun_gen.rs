//! Draws the walls of a room on a map, placed or not.

use crate::dun_gen::{DoesDunGen, DoesDunGenStatic};
use crate::dun_gen_placed::{DoesDunGenPlaced, DoesDunGenPlacedStatic};
use crate::geometry::{Area, Position, Size};
use crate::map::{MapId, MapModel, TileType};
use crate::providers::ProvidesPlacedShape;
use crate::registry::{MapRegistry, RegistryModel};
use vstd::prelude::*;

verus! {

/// The rectangle of the given extent whose corner lies in column `x` of row
/// `y`; the empty rectangle at the origin if that corner is not
/// representable.
pub open spec fn strip(x: int, y: int, width: u32, height: u32) -> Area {
    if i32::MIN <= x <= i32::MAX && i32::MIN <= y <= i32::MAX {
        Area { position: Position { x: x as i32, y: y as i32 }, size: Size { width, height } }
    } else {
        Area { position: Position { x: 0, y: 0 }, size: Size { width: 0, height: 0 } }
    }
}

/// Computes `strip`.
pub fn strip_at(x: i64, y: i64, width: u32, height: u32) -> (area: Area)
    ensures
        area == strip(x as int, y as int, width, height),
{
    if -2147483648 <= x && x <= 2147483647 && -2147483648 <= y && y <= 2147483647 {
        Area { position: Position { x: x as i32, y: y as i32 }, size: Size { width, height } }
    } else {
        Area { position: Position { x: 0, y: 0 }, size: Size { width: 0, height: 0 } }
    }
}

/// The map after walls have been drawn for `shape`: along row zero and
/// along the last row of the shape, over the columns of the shape, and
/// along column zero and along the last column of the shape, over the rows
/// of the shape. The map grows to hold the walls. A shape without columns or
/// without rows changes nothing.
pub open spec fn edged(map: MapModel, shape: Area) -> MapModel {
    if shape.size.width == 0 || shape.size.height == 0 {
        map
    } else {
        map.filled(strip(shape.spec_left(), 0, shape.size.width, 1), TileType::Wall).filled(
            strip(0, shape.spec_top(), 1, shape.size.height),
            TileType::Wall,
        ).filled(
            strip(shape.spec_right(), shape.spec_top(), 1, shape.size.height),
            TileType::Wall,
        ).filled(
            strip(shape.spec_left(), shape.spec_bottom(), shape.size.width, 1),
            TileType::Wall,
        )
    }
}

/// Draws the walls for `shape` on the map `map_id`.
pub fn draw_edges(maps: &mut MapRegistry, map_id: MapId, shape: Area)
    requires
        old(maps).wf(),
        old(maps)@.contains(map_id),
    ensures
        final(maps).wf(),
        final(maps)@.extends(old(maps)@),
        final(maps)@ == old(maps)@.with_map(map_id, edged(old(maps)@.map(map_id), shape)),
{
    if shape.size.width == 0 || shape.size.height == 0 {
        proof {
            assert(old(maps)@.with_map(map_id, old(maps)@.map(map_id)).slots =~= old(maps)@.slots);
        }
        return ;
    }
    let ghost start = old(maps)@.map(map_id);
    maps.fill(map_id, strip_at(shape.left(), 0, shape.size.width, 1), TileType::Wall);
    maps.fill(map_id, strip_at(0, shape.top(), 1, shape.size.height), TileType::Wall);
    maps.fill(map_id, strip_at(shape.right(), shape.top(), 1, shape.size.height), TileType::Wall);
    maps.fill(map_id, strip_at(shape.left(), shape.bottom(), shape.size.width, 1), TileType::Wall);
    proof {
        assert(maps@.slots =~= old(maps)@.with_map(map_id, edged(start, shape)).slots);
    }
}

/// Whether drawing walls around the whole of the map `map_id` turns the
/// registry `before` into `maps`.
pub open spec fn walls_whole_map(before: RegistryModel, map_id: MapId, maps: RegistryModel) -> bool {
    maps == before.with_map(map_id, edged(before.map(map_id), before.map(map_id).area()))
}

/// Draws walls around the whole of the map `map_id`.
fn wall_whole_map(maps: &mut MapRegistry, map_id: MapId)
    requires
        old(maps).wf(),
        old(maps)@.contains(map_id),
    ensures
        final(maps).wf(),
        final(maps)@.extends(old(maps)@),
        walls_whole_map(old(maps)@, map_id, final(maps)@),
{
    let area: Area = maps.read(map_id).area();
    draw_edges(maps, map_id, area);
}

/// Draws walls along the edges of a rectangle, over whatever is there.
/// Applied without an instance, it draws them around the whole map as it
/// is.
pub struct WalledRoomDunGen<TProvidesShapeArea> where
    TProvidesShapeArea: ProvidesPlacedShape + Sized,
 {
    provides_shape_area: TProvidesShapeArea,
}

impl<TProvidesShapeArea> WalledRoomDunGen<TProvidesShapeArea> where
    TProvidesShapeArea: ProvidesPlacedShape + Sized,
 {
    pub closed spec fn provides_shape_area(&self) -> TProvidesShapeArea {
        self.provides_shape_area
    }

    /// Whether drawing walls on the map `map_id` can turn the registry
    /// `before` into `maps`.
    pub open spec fn walls(&self, before: RegistryModel, map_id: MapId, maps: RegistryModel) -> bool {
        exists|shape: Area| #[trigger]
            self.provides_shape_area().provides_placed_shape(shape) && maps == before.with_map(
                map_id,
                edged(before.map(map_id), shape),
            )
    }

    /// A generator that draws walls along the edges of the shape that
    /// `provides_shape_area` gives.
    pub fn new(provides_shape_area: TProvidesShapeArea) -> (generator: Self)
        ensures
            generator.wf(),
            generator.provides_shape_area() == provides_shape_area,
    {
        Self { provides_shape_area }
    }

    /// Draws the walls on the map `map_id`.
    fn wall(&self, maps: &mut MapRegistry, map_id: MapId)
        requires
            old(maps).wf(),
            old(maps)@.contains(map_id),
        ensures
            final(maps).wf(),
            final(maps)@.extends(old(maps)@),
            self.walls(old(maps)@, map_id, final(maps)@),
    {
        let shape: Area = self.provides_shape_area.provide_placed_shape();
        draw_edges(maps, map_id, shape);
        proof {
            assert(self.provides_shape_area().provides_placed_shape(shape));
        }
    }
}

impl<TProvidesShapeArea> DoesDunGen for WalledRoomDunGen<TProvidesShapeArea> where
    TProvidesShapeArea: ProvidesPlacedShape + Sized,
 {
    open spec fn wf(&self) -> bool {
        true
    }

    open spec fn effect(
        &self,
        after: &Self,
        before: RegistryModel,
        map_id: MapId,
        maps: RegistryModel,
    ) -> bool {
        *after == *self && self.walls(before, map_id, maps)
    }

    fn dun_gen_map(&mut self, maps: &mut MapRegistry, map_id: MapId) {
        self.wall(maps, map_id);
    }
}

impl<TProvidesShapeArea> DoesDunGenPlaced for WalledRoomDunGen<TProvidesShapeArea> where
    TProvidesShapeArea: ProvidesPlacedShape + Sized,
 {
    open spec fn placed_effect(
        &self,
        after: &Self,
        before: RegistryModel,
        map_id: MapId,
        maps: RegistryModel,
    ) -> bool {
        *after == *self && self.walls(before, map_id, maps)
    }

    fn dun_gen_placed_map(&mut self, maps: &mut MapRegistry, map_id: MapId) {
        self.wall(maps, map_id);
    }
}

impl<TProvidesShapeArea> DoesDunGenStatic for WalledRoomDunGen<TProvidesShapeArea> where
    TProvidesShapeArea: ProvidesPlacedShape + Sized,
 {
    open spec fn static_effect(before: RegistryModel, map_id: MapId, maps: RegistryModel) -> bool {
        walls_whole_map(before, map_id, maps)
    }

    fn dun_gen_map_static(maps: &mut MapRegistry, map_id: MapId) {
        wall_whole_map(maps, map_id);
    }
}

impl<TProvidesShapeArea> DoesDunGenPlacedStatic for WalledRoomDunGen<TProvidesShapeArea> where
    TProvidesShapeArea: ProvidesPlacedShape + Sized,
 {
    open spec fn placed_static_effect(
        before: RegistryModel,
        map_id: MapId,
        maps: RegistryModel,
    ) -> bool {
        walls_whole_map(before, map_id, maps)
    }

    fn dun_gen_placed_map_static(maps: &mut MapRegistry, map_id: MapId) {
        wall_whole_map(maps, map_id);
    }
}

} // verus!
