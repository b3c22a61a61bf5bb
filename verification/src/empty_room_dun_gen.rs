//! Lays out the floor of a room on a map, placed or not.

use crate::dun_gen::{DoesDunGen, DoesDunGenStatic};
use crate::dun_gen_placed::{DoesDunGenPlaced, DoesDunGenPlacedStatic};
use crate::geometry::Area;
use crate::map::{MapId, TileType};
use crate::providers::ProvidesPlacedShape;
use crate::registry::{MapRegistry, RegistryModel};
use vstd::prelude::*;

verus! {

/// Whether laying floor over the whole of the map `map_id` turns the
/// registry `before` into `maps`.
pub open spec fn floors_whole_map(before: RegistryModel, map_id: MapId, maps: RegistryModel) -> bool {
    maps == before.with_map(
        map_id,
        before.map(map_id).filled(before.map(map_id).area(), TileType::Floor),
    )
}

/// Lays floor over the whole of the map `map_id`.
fn floor_whole_map(maps: &mut MapRegistry, map_id: MapId)
    requires
        old(maps).wf(),
        old(maps)@.contains(map_id),
    ensures
        final(maps).wf(),
        final(maps)@.extends(old(maps)@),
        floors_whole_map(old(maps)@, map_id, final(maps)@),
{
    let area: Area = maps.read(map_id).area();
    maps.fill(map_id, area, TileType::Floor);
}

/// Sets every tile of a rectangle to floor. Applied without an instance, it
/// lays floor over the whole map as it is.
pub struct EmptyRoomDunGen<TProvidesShapeArea> where
    TProvidesShapeArea: ProvidesPlacedShape + Sized,
 {
    provides_shape_area: TProvidesShapeArea,
}

impl<TProvidesShapeArea> EmptyRoomDunGen<TProvidesShapeArea> where
    TProvidesShapeArea: ProvidesPlacedShape + Sized,
 {
    pub closed spec fn provides_shape_area(&self) -> TProvidesShapeArea {
        self.provides_shape_area
    }

    /// Whether laying floor on the map `map_id` can turn the registry
    /// `before` into `maps`.
    pub open spec fn floors(&self, before: RegistryModel, map_id: MapId, maps: RegistryModel) -> bool {
        exists|shape: Area| #[trigger]
            self.provides_shape_area().provides_placed_shape(shape) && maps == before.with_map(
                map_id,
                before.map(map_id).filled(shape, TileType::Floor),
            )
    }

    /// A generator that lays floor over the shape that
    /// `provides_shape_area` gives.
    pub fn new(provides_shape_area: TProvidesShapeArea) -> (generator: Self)
        ensures
            generator.wf(),
            generator.provides_shape_area() == provides_shape_area,
    {
        Self { provides_shape_area }
    }

    /// Lays floor over the shape on the map `map_id`.
    fn floor(&self, maps: &mut MapRegistry, map_id: MapId)
        requires
            old(maps).wf(),
            old(maps)@.contains(map_id),
        ensures
            final(maps).wf(),
            final(maps)@.extends(old(maps)@),
            self.floors(old(maps)@, map_id, final(maps)@),
    {
        let shape: Area = self.provides_shape_area.provide_placed_shape();
        maps.fill(map_id, shape, TileType::Floor);
        proof {
            assert(self.provides_shape_area().provides_placed_shape(shape));
        }
    }
}

impl<TProvidesShapeArea> DoesDunGen for EmptyRoomDunGen<TProvidesShapeArea> where
    TProvidesShapeArea: ProvidesPlacedShape + Sized,
 {
    open spec fn wf(&self) -> bool {
        true
    }

    open spec fn effect(
        &self,
        after: &Self,
        before: RegistryModel,
        map_id: MapId,
        maps: RegistryModel,
    ) -> bool {
        *after == *self && self.floors(before, map_id, maps)
    }

    fn dun_gen_map(&mut self, maps: &mut MapRegistry, map_id: MapId) {
        self.floor(maps, map_id);
    }
}

impl<TProvidesShapeArea> DoesDunGenPlaced for EmptyRoomDunGen<TProvidesShapeArea> where
    TProvidesShapeArea: ProvidesPlacedShape + Sized,
 {
    open spec fn placed_effect(
        &self,
        after: &Self,
        before: RegistryModel,
        map_id: MapId,
        maps: RegistryModel,
    ) -> bool {
        *after == *self && self.floors(before, map_id, maps)
    }

    fn dun_gen_placed_map(&mut self, maps: &mut MapRegistry, map_id: MapId) {
        self.floor(maps, map_id);
    }
}

impl<TProvidesShapeArea> DoesDunGenStatic for EmptyRoomDunGen<TProvidesShapeArea> where
    TProvidesShapeArea: ProvidesPlacedShape + Sized,
 {
    open spec fn static_effect(before: RegistryModel, map_id: MapId, maps: RegistryModel) -> bool {
        floors_whole_map(before, map_id, maps)
    }

    fn dun_gen_map_static(maps: &mut MapRegistry, map_id: MapId) {
        floor_whole_map(maps, map_id);
    }
}

impl<TProvidesShapeArea> DoesDunGenPlacedStatic for EmptyRoomDunGen<TProvidesShapeArea> where
    TProvidesShapeArea: ProvidesPlacedShape + Sized,
 {
    open spec fn placed_static_effect(
        before: RegistryModel,
        map_id: MapId,
        maps: RegistryModel,
    ) -> bool {
        floors_whole_map(before, map_id, maps)
    }

    fn dun_gen_placed_map_static(maps: &mut MapRegistry, map_id: MapId) {
        floor_whole_map(maps, map_id);
    }
}

} // verus!
