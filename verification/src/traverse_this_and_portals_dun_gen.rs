//! Applies a generator to a map and to the placed maps behind its portals.

use crate::dun_gen::DoesDunGen;
use crate::dun_gen_placed::DoesDunGenPlaced;
use crate::map::MapId;
use crate::registry::{MapRegistry, RegistryModel};
use crate::traverse_portals_dun_gen::{apply_placed_in_turn, places_in_turn};
use crate::traverse_portals_generator::portal_targets;
use vstd::prelude::*;

verus! {

/// Applies a generator to a map and then to the placed map behind each of
/// its portals, one hop only. The targets are taken from the portals as
/// they are after the generator has run on the map itself, in the order of
/// the portals.
pub struct TraverseThisAndPortalsDunGen<TDunGen> where TDunGen: DoesDunGenPlaced {
    dun_gen: TDunGen,
}

impl<TDunGen> TraverseThisAndPortalsDunGen<TDunGen> where TDunGen: DoesDunGenPlaced {
    pub closed spec fn inner(&self) -> TDunGen {
        self.dun_gen
    }

    /// A generator that applies `dun_gen` to a map and to the placed maps
    /// behind its portals.
    pub fn new(dun_gen: TDunGen) -> (generator: Self)
        requires
            dun_gen.wf(),
        ensures
            generator.wf(),
            generator.inner() == dun_gen,
    {
        Self { dun_gen }
    }
}

impl<TDunGen> DoesDunGen for TraverseThisAndPortalsDunGen<TDunGen> where TDunGen: DoesDunGenPlaced {
    open spec fn wf(&self) -> bool {
        self.inner().wf()
    }

    open spec fn effect(
        &self,
        after: &Self,
        before: RegistryModel,
        map_id: MapId,
        maps: RegistryModel,
    ) -> bool {
        exists|here: TDunGen, between: RegistryModel|
            {
                &&& #[trigger] self.inner().effect(&here, before, map_id, between)
                &&& between.wf()
                &&& between.extends(before)
                &&& places_in_turn(
                    here,
                    after.inner(),
                    between,
                    between.portal_targets(map_id),
                    maps,
                )
            }
    }

    fn dun_gen_map(&mut self, maps: &mut MapRegistry, map_id: MapId) {
        self.dun_gen.dun_gen_map(maps, map_id);
        let ghost here = self.dun_gen;
        let ghost between = maps@;
        let targets: Vec<MapId> = portal_targets(maps, map_id);
        apply_placed_in_turn(&mut self.dun_gen, maps, &targets);
        proof {
            assert(old(self).inner().effect(&here, old(maps)@, map_id, between));
        }
    }
}

impl<TDunGen> DoesDunGenPlaced for TraverseThisAndPortalsDunGen<TDunGen> where
    TDunGen: DoesDunGenPlaced,
 {
    open spec fn placed_effect(
        &self,
        after: &Self,
        before: RegistryModel,
        map_id: MapId,
        maps: RegistryModel,
    ) -> bool {
        exists|here: TDunGen, between: RegistryModel|
            {
                &&& #[trigger] self.inner().placed_effect(&here, before, map_id, between)
                &&& between.wf()
                &&& between.extends(before)
                &&& places_in_turn(
                    here,
                    after.inner(),
                    between,
                    between.portal_targets(map_id),
                    maps,
                )
            }
    }

    fn dun_gen_placed_map(&mut self, maps: &mut MapRegistry, map_id: MapId) {
        self.dun_gen.dun_gen_placed_map(maps, map_id);
        let ghost here = self.dun_gen;
        let ghost between = maps@;
        let targets: Vec<MapId> = portal_targets(maps, map_id);
        apply_placed_in_turn(&mut self.dun_gen, maps, &targets);
        proof {
            assert(old(self).inner().placed_effect(&here, old(maps)@, map_id, between));
        }
    }
}

} // verus!
