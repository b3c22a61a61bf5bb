//! Applies a generator to the placed maps behind the portals of a map.

use crate::dun_gen::DoesDunGen;
use crate::dun_gen_placed::DoesDunGenPlaced;
use crate::map::MapId;
use crate::registry::{MapRegistry, RegistryModel};
use crate::traverse_portals_generator::portal_targets;
use vstd::prelude::*;

verus! {

/// Whether step `k` of a run of applications to placed maps holds: the
/// generator in its state `generators[k]`, applied to the placed map
/// `map_ids[k]` of the registry `registries[k]`, can leave the registry as
/// `registries[k + 1]` and itself as `generators[k + 1]`.
pub open spec fn is_placed_application<TDunGen: DoesDunGenPlaced>(
    generators: Seq<TDunGen>,
    registries: Seq<RegistryModel>,
    map_ids: Seq<MapId>,
    k: int,
) -> bool {
    &&& registries[k].wf()
    &&& registries[k].contains(map_ids[k])
    &&& generators[k].placed_effect(
        &generators[k + 1],
        registries[k],
        map_ids[k],
        registries[k + 1],
    )
    &&& registries[k + 1].wf()
    &&& registries[k + 1].extends(registries[k])
}

/// Whether a generator has been applied to the placed maps `map_ids` in
/// turn: `generators` and `registries` hold the states of the generator and
/// of the registry before the first application and after each one.
pub open spec fn placed_in_turn<TDunGen: DoesDunGenPlaced>(
    generators: Seq<TDunGen>,
    registries: Seq<RegistryModel>,
    map_ids: Seq<MapId>,
) -> bool {
    &&& generators.len() == map_ids.len() + 1
    &&& registries.len() == map_ids.len() + 1
    &&& forall|k: int|
        0 <= k < map_ids.len() ==> #[trigger] is_placed_application(
            generators,
            registries,
            map_ids,
            k,
        )
}

/// Whether applying `generator` to the placed maps `map_ids` in turn can
/// turn the registry `before` into `maps` and the generator into `after`.
pub open spec fn places_in_turn<TDunGen: DoesDunGenPlaced>(
    generator: TDunGen,
    after: TDunGen,
    before: RegistryModel,
    map_ids: Seq<MapId>,
    maps: RegistryModel,
) -> bool {
    exists|generators: Seq<TDunGen>, registries: Seq<RegistryModel>|
        {
            &&& #[trigger] placed_in_turn(generators, registries, map_ids)
            &&& generators.first() == generator
            &&& generators.last() == after
            &&& registries.first() == before
            &&& registries.last() == maps
        }
}

/// Applies `generator` to each of the placed maps `targets` in turn.
pub fn apply_placed_in_turn<TDunGen: DoesDunGenPlaced>(
    generator: &mut TDunGen,
    maps: &mut MapRegistry,
    targets: &Vec<MapId>,
)
    requires
        old(generator).wf(),
        old(maps).wf(),
        forall|k: int| 0 <= k < targets@.len() ==> old(maps)@.contains(#[trigger] targets@[k]),
    ensures
        final(generator).wf(),
        final(maps).wf(),
        final(maps)@.extends(old(maps)@),
        places_in_turn(*old(generator), *final(generator), old(maps)@, targets@, final(maps)@),
{
    let ghost mut generators: Seq<TDunGen> = seq![*generator];
    let ghost mut registries: Seq<RegistryModel> = seq![maps@];
    let mut i: usize = 0;
    while i < targets.len()
        invariant
            i <= targets@.len(),
            generator.wf(),
            maps.wf(),
            maps@.extends(old(maps)@),
            forall|k: int| 0 <= k < targets@.len() ==> old(maps)@.contains(#[trigger] targets@[k]),
            placed_in_turn(generators, registries, targets@.take(i as int)),
            generators.first() == *old(generator),
            generators.last() == *generator,
            registries.first() == old(maps)@,
            registries.last() == maps@,
        decreases targets.len() - i,
    {
        let ghost maps_before = maps@;
        assert(old(maps)@.contains(targets@[i as int]));
        generator.dun_gen_placed_map(maps, targets[i]);
        proof {
            let longer_generators = generators.push(*generator);
            let longer_registries = registries.push(maps@);
            let longer_ids = targets@.take(i + 1);
            assert forall|k: int| 0 <= k < longer_ids.len() implies #[trigger] is_placed_application(
                longer_generators,
                longer_registries,
                longer_ids,
                k,
            ) by {
                if k < i {
                    assert(is_placed_application(generators, registries, targets@.take(i as int), k));
                    assert(longer_generators[k] == generators[k]);
                    assert(longer_generators[k + 1] == generators[k + 1]);
                    assert(longer_registries[k] == registries[k]);
                    assert(longer_registries[k + 1] == registries[k + 1]);
                } else {
                    assert(longer_generators[k] == generators.last());
                    assert(longer_registries[k] == maps_before);
                }
            }
            generators = longer_generators;
            registries = longer_registries;
        }
        i = i + 1;
    }
    proof {
        assert(targets@.take(targets@.len() as int) =~= targets@);
    }
}

/// Applies a generator to the placed map behind each portal of a map, one
/// hop only. The targets are taken from the portals as they are before the
/// generator runs, in the order of the portals.
pub struct TraversePortalsDunGen<TDunGen> where TDunGen: DoesDunGenPlaced {
    dun_gen: TDunGen,
}

impl<TDunGen> TraversePortalsDunGen<TDunGen> where TDunGen: DoesDunGenPlaced {
    pub closed spec fn inner(&self) -> TDunGen {
        self.dun_gen
    }

    /// A generator that applies `dun_gen` to the placed maps behind the
    /// portals.
    pub fn new(dun_gen: TDunGen) -> (generator: Self)
        requires
            dun_gen.wf(),
        ensures
            generator.wf(),
            generator.inner() == dun_gen,
    {
        Self { dun_gen }
    }

    /// Applies the generator to the placed maps behind the portals of the
    /// map `map_id`.
    fn traverse(&mut self, maps: &mut MapRegistry, map_id: MapId)
        requires
            old(self).inner().wf(),
            old(maps).wf(),
            old(maps)@.contains(map_id),
        ensures
            final(self).inner().wf(),
            final(maps).wf(),
            final(maps)@.extends(old(maps)@),
            places_in_turn(
                old(self).inner(),
                final(self).inner(),
                old(maps)@,
                old(maps)@.portal_targets(map_id),
                final(maps)@,
            ),
    {
        let targets: Vec<MapId> = portal_targets(maps, map_id);
        apply_placed_in_turn(&mut self.dun_gen, maps, &targets);
    }
}

impl<TDunGen> DoesDunGen for TraversePortalsDunGen<TDunGen> where TDunGen: DoesDunGenPlaced {
    open spec fn wf(&self) -> bool {
        self.inner().wf()
    }

    open spec fn effect(
        &self,
        after: &Self,
        before: RegistryModel,
        map_id: MapId,
        maps: RegistryModel,
    ) -> bool {
        places_in_turn(self.inner(), after.inner(), before, before.portal_targets(map_id), maps)
    }

    fn dun_gen_map(&mut self, maps: &mut MapRegistry, map_id: MapId) {
        self.traverse(maps, map_id);
    }
}

impl<TDunGen> DoesDunGenPlaced for TraversePortalsDunGen<TDunGen> where TDunGen: DoesDunGenPlaced {
    open spec fn placed_effect(
        &self,
        after: &Self,
        before: RegistryModel,
        map_id: MapId,
        maps: RegistryModel,
    ) -> bool {
        places_in_turn(self.inner(), after.inner(), before, before.portal_targets(map_id), maps)
    }

    fn dun_gen_placed_map(&mut self, maps: &mut MapRegistry, map_id: MapId) {
        self.traverse(maps, map_id);
    }
}

} // verus!
