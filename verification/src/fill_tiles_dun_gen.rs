//! Fills a rectangle of a map, placed or not, with one kind of tile.

use crate::dun_gen::DoesDunGen;
use crate::dun_gen_placed::DoesDunGenPlaced;
use crate::geometry::Area;
use crate::map::{MapId, TileType};
use crate::providers::ProvidesPlacedShape;
use crate::registry::{MapRegistry, RegistryModel};
use vstd::prelude::*;

verus! {

/// Sets every tile of a rectangle to one kind of tile. The map grows to hold
/// the rectangle; a rectangle without columns or without rows changes
/// nothing.
pub struct FillTilesDunGen<TProvidesShapeArea> where
    TProvidesShapeArea: ProvidesPlacedShape + Sized,
 {
    provides_shape_area: TProvidesShapeArea,
    tile_type_fill: TileType,
}

impl<TProvidesShapeArea> FillTilesDunGen<TProvidesShapeArea> where
    TProvidesShapeArea: ProvidesPlacedShape + Sized,
 {
    pub closed spec fn provides_shape_area(&self) -> TProvidesShapeArea {
        self.provides_shape_area
    }

    pub closed spec fn tile_type_fill(&self) -> TileType {
        self.tile_type_fill
    }

    /// Whether filling the map `map_id` can turn the registry `before` into
    /// `maps`.
    pub open spec fn fills(&self, before: RegistryModel, map_id: MapId, maps: RegistryModel) -> bool {
        exists|shape: Area| #[trigger]
            self.provides_shape_area().provides_placed_shape(shape) && maps == before.with_map(
                map_id,
                before.map(map_id).filled(shape, self.tile_type_fill()),
            )
    }

    /// A generator that fills the shape that `provides_shape_area` gives
    /// with `tile_type_fill`.
    pub fn new(provides_shape_area: TProvidesShapeArea, tile_type_fill: TileType) -> (generator:
        Self)
        ensures
            generator.wf(),
            generator.provides_shape_area() == provides_shape_area,
            generator.tile_type_fill() == tile_type_fill,
    {
        Self { provides_shape_area, tile_type_fill }
    }

    /// Fills the shape on the map `map_id`.
    fn fill(&self, maps: &mut MapRegistry, map_id: MapId)
        requires
            old(maps).wf(),
            old(maps)@.contains(map_id),
        ensures
            final(maps).wf(),
            final(maps)@.extends(old(maps)@),
            self.fills(old(maps)@, map_id, final(maps)@),
    {
        let shape: Area = self.provides_shape_area.provide_placed_shape();
        maps.fill(map_id, shape, self.tile_type_fill);
        proof {
            assert(self.provides_shape_area().provides_placed_shape(shape));
        }
    }
}

impl<TProvidesShapeArea> DoesDunGen for FillTilesDunGen<TProvidesShapeArea> where
    TProvidesShapeArea: ProvidesPlacedShape + Sized,
 {
    open spec fn wf(&self) -> bool {
        true
    }

    open spec fn effect(
        &self,
        after: &Self,
        before: RegistryModel,
        map_id: MapId,
        maps: RegistryModel,
    ) -> bool {
        *after == *self && self.fills(before, map_id, maps)
    }

    fn dun_gen_map(&mut self, maps: &mut MapRegistry, map_id: MapId) {
        self.fill(maps, map_id);
    }
}

impl<TProvidesShapeArea> DoesDunGenPlaced for FillTilesDunGen<TProvidesShapeArea> where
    TProvidesShapeArea: ProvidesPlacedShape + Sized,
 {
    open spec fn placed_effect(
        &self,
        after: &Self,
        before: RegistryModel,
        map_id: MapId,
        maps: RegistryModel,
    ) -> bool {
        *after == *self && self.fills(before, map_id, maps)
    }

    fn dun_gen_placed_map(&mut self, maps: &mut MapRegistry, map_id: MapId) {
        self.fill(maps, map_id);
    }
}

} // verus!
