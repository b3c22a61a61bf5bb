//! Applies a generator to a map and to the maps behind its portals.

use crate::dun_gen::{applied_in_turn, DoesDunGen};
use crate::map::MapId;
use crate::registry::{MapRegistry, RegistryModel};
use crate::traverse_portals_generator::{apply_in_turn, portal_targets};
use vstd::prelude::*;

verus! {

/// Applies a generator to a map and then to the map behind each of its
/// portals, one hop only. The targets are taken from the portals as they
/// are after the generator has run on the map itself, in the order of the
/// portals.
pub struct TraverseThisAndPortalsGenerator<TDunGen> where TDunGen: DoesDunGen {
    dun_gen: TDunGen,
}

impl<TDunGen> TraverseThisAndPortalsGenerator<TDunGen> where TDunGen: DoesDunGen {
    pub closed spec fn inner(&self) -> TDunGen {
        self.dun_gen
    }

    /// A generator that applies `dun_gen` to a map and to the maps behind
    /// its portals.
    pub fn new(dun_gen: TDunGen) -> (generator: Self)
        requires
            dun_gen.wf(),
        ensures
            generator.wf(),
            generator.inner() == dun_gen,
    {
        Self { dun_gen }
    }
}

impl<TDunGen> DoesDunGen for TraverseThisAndPortalsGenerator<TDunGen> where TDunGen: DoesDunGen {
    open spec fn wf(&self) -> bool {
        self.inner().wf()
    }

    open spec fn effect(
        &self,
        after: &Self,
        before: RegistryModel,
        map_id: MapId,
        maps: RegistryModel,
    ) -> bool {
        exists|generators: Seq<TDunGen>, registries: Seq<RegistryModel>|
            {
                &&& #[trigger] applied_in_turn(
                    generators,
                    registries,
                    seq![map_id] + registries[1].portal_targets(map_id),
                )
                &&& generators.first() == self.inner()
                &&& generators.last() == after.inner()
                &&& registries.first() == before
                &&& registries.last() == maps
            }
    }

    fn dun_gen_map(&mut self, maps: &mut MapRegistry, map_id: MapId) {
        self.dun_gen.dun_gen_map(maps, map_id);
        let ghost generator_here = self.dun_gen;
        let ghost maps_here = maps@;
        let targets: Vec<MapId> = portal_targets(maps, map_id);
        apply_in_turn(&mut self.dun_gen, maps, &targets);
        proof {
            let (generators, registries) = choose|
                generators: Seq<TDunGen>,
                registries: Seq<RegistryModel>,
            |
                {
                    &&& #[trigger] applied_in_turn(generators, registries, targets@)
                    &&& generators.first() == generator_here
                    &&& generators.last() == self.dun_gen
                    &&& registries.first() == maps_here
                    &&& registries.last() == maps@
                };
            let all_generators = seq![old(self).dun_gen] + generators;
            let all_registries = seq![old(maps)@] + registries;
            let all_ids = seq![map_id] + targets@;
            assert(all_registries[1] == maps_here);
            assert forall|k: int| 0 <= k < all_ids.len() implies #[trigger] crate::dun_gen::is_application(
                all_generators,
                all_registries,
                all_ids,
                k,
            ) by {
                if k > 0 {
                    assert(crate::dun_gen::is_application(generators, registries, targets@, k - 1));
                    assert(all_generators[k] == generators[k - 1]);
                    assert(all_generators[k + 1] == generators[k]);
                    assert(all_registries[k] == registries[k - 1]);
                    assert(all_registries[k + 1] == registries[k]);
                    assert(all_ids[k] == targets@[k - 1]);
                } else {
                    assert(all_generators[1] == generators[0]);
                    assert(all_registries[1] == registries[0]);
                }
            }
            assert(applied_in_turn(all_generators, all_registries, all_ids));
        }
    }
}

} // verus!
