//! Lays out the floor of a room.

use crate::dun_gen::DoesDunGen;
use crate::fill_tiles_generator::FillTilesGenerator;
use crate::map::{MapId, TileType};
use crate::providers::ProvidesPlacedShape;
use crate::registry::{MapRegistry, RegistryModel};
use vstd::prelude::*;

verus! {

/// Sets every tile of a rectangle to floor: a fill with `TileType::Floor`.
pub struct EmptyRoomGenerator<TProvidesPlacedShape> where
    TProvidesPlacedShape: ProvidesPlacedShape + Sized,
 {
    forward_to: FillTilesGenerator<TProvidesPlacedShape>,
}

impl<TProvidesPlacedShape> EmptyRoomGenerator<TProvidesPlacedShape> where
    TProvidesPlacedShape: ProvidesPlacedShape + Sized,
 {
    /// The fill that this generator stands for.
    pub closed spec fn forward_to(&self) -> FillTilesGenerator<TProvidesPlacedShape> {
        self.forward_to
    }

    /// A generator that lays floor over the shape that
    /// `provides_placed_shape` gives.
    pub fn new(provides_placed_shape: TProvidesPlacedShape) -> (generator: Self)
        ensures
            generator.wf(),
            generator.forward_to().provides_placed_shape() == provides_placed_shape,
            generator.forward_to().tile_type_fill() == TileType::Floor,
    {
        Self { forward_to: FillTilesGenerator::new(provides_placed_shape, TileType::Floor) }
    }
}

impl<TProvidesPlacedShape> DoesDunGen for EmptyRoomGenerator<TProvidesPlacedShape> where
    TProvidesPlacedShape: ProvidesPlacedShape + Sized,
 {
    open spec fn wf(&self) -> bool {
        self.forward_to().wf()
    }

    open spec fn effect(
        &self,
        after: &Self,
        before: RegistryModel,
        map_id: MapId,
        maps: RegistryModel,
    ) -> bool {
        self.forward_to().effect(&after.forward_to(), before, map_id, maps)
    }

    fn dun_gen_map(&mut self, maps: &mut MapRegistry, map_id: MapId) {
        self.forward_to.dun_gen_map(maps, map_id)
    }
}

} // verus!
