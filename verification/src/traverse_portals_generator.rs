//! Applies a generator to the maps behind the portals of a map.

use crate::dun_gen::{applied_in_turn, lemma_applied_once_more, DoesDunGen};
use crate::map::MapId;
use crate::registry::{MapRegistry, RegistryModel};
use vstd::prelude::*;

verus! {

/// The targets of the portals of the map that `map_id` names, in the order
/// of the portals.
pub fn portal_targets(maps: &MapRegistry, map_id: MapId) -> (targets: Vec<MapId>)
    requires
        maps.wf(),
        maps@.contains(map_id),
    ensures
        targets@ == maps@.portal_targets(map_id),
        forall|k: int| 0 <= k < targets@.len() ==> maps@.contains(#[trigger] targets@[k]),
{
    let portals = maps.read(map_id).portals();
    let mut targets: Vec<MapId> = Vec::new();
    let mut i: usize = 0;
    assert(maps@.map(map_id).refers_within(maps@.len()));
    while i < portals.len()
        invariant
            i <= portals@.len(),
            portals@ == maps@.map(map_id).portals,
            maps@.map(map_id).refers_within(maps@.len()),
            targets@.len() == i,
            forall|k: int| 0 <= k < i ==> #[trigger] targets@[k] == portals@[k].target,
        decreases portals.len() - i,
    {
        targets.push(portals[i].target);
        i = i + 1;
    }
    assert(targets@ =~= maps@.portal_targets(map_id));
    targets
}

/// Applies `generator` to each of `targets` in turn.
pub fn apply_in_turn<TDunGen: DoesDunGen>(
    generator: &mut TDunGen,
    maps: &mut MapRegistry,
    targets: &Vec<MapId>,
)
    requires
        old(generator).wf(),
        old(maps).wf(),
        forall|k: int| 0 <= k < targets@.len() ==> old(maps)@.contains(#[trigger] targets@[k]),
    ensures
        final(generator).wf(),
        final(maps).wf(),
        final(maps)@.extends(old(maps)@),
        exists|generators: Seq<TDunGen>, registries: Seq<RegistryModel>|
            {
                &&& #[trigger] applied_in_turn(generators, registries, targets@)
                &&& generators.first() == *old(generator)
                &&& generators.last() == *final(generator)
                &&& registries.first() == old(maps)@
                &&& registries.last() == final(maps)@
            },
{
    let ghost mut generators: Seq<TDunGen> = seq![*generator];
    let ghost mut registries: Seq<RegistryModel> = seq![maps@];
    let mut i: usize = 0;
    while i < targets.len()
        invariant
            i <= targets@.len(),
            generator.wf(),
            maps.wf(),
            maps@.extends(old(maps)@),
            forall|k: int| 0 <= k < targets@.len() ==> old(maps)@.contains(#[trigger] targets@[k]),
            applied_in_turn(generators, registries, targets@.take(i as int)),
            generators.first() == *old(generator),
            generators.last() == *generator,
            registries.first() == old(maps)@,
            registries.last() == maps@,
        decreases targets.len() - i,
    {
        assert(old(maps)@.contains(targets@[i as int]));
        generator.dun_gen_map(maps, targets[i]);
        proof {
            lemma_applied_once_more(
                generators,
                registries,
                targets@.take(i as int),
                *generator,
                maps@,
                targets@[i as int],
            );
            assert(targets@.take(i as int).push(targets@[i as int]) =~= targets@.take(i + 1));
            generators = generators.push(*generator);
            registries = registries.push(maps@);
        }
        i = i + 1;
    }
    proof {
        assert(targets@.take(targets@.len() as int) =~= targets@);
    }
}

/// Applies a generator to the map behind each portal of a map, one hop
/// only. The targets are taken from the portals as they are before the
/// generator runs, in the order of the portals; what the generator does to
/// the portals has no influence on where it is applied.
pub struct TraversePortalsGenerator<TDunGen> where TDunGen: DoesDunGen {
    dun_gen: TDunGen,
}

impl<TDunGen> TraversePortalsGenerator<TDunGen> where TDunGen: DoesDunGen {
    pub closed spec fn inner(&self) -> TDunGen {
        self.dun_gen
    }

    /// A generator that applies `dun_gen` to the maps behind the portals.
    pub fn new(dun_gen: TDunGen) -> (generator: Self)
        requires
            dun_gen.wf(),
        ensures
            generator.wf(),
            generator.inner() == dun_gen,
    {
        Self { dun_gen }
    }
}

impl<TDunGen> DoesDunGen for TraversePortalsGenerator<TDunGen> where TDunGen: DoesDunGen {
    open spec fn wf(&self) -> bool {
        self.inner().wf()
    }

    open spec fn effect(
        &self,
        after: &Self,
        before: RegistryModel,
        map_id: MapId,
        maps: RegistryModel,
    ) -> bool {
        exists|generators: Seq<TDunGen>, registries: Seq<RegistryModel>|
            {
                &&& #[trigger] applied_in_turn(
                    generators,
                    registries,
                    before.portal_targets(map_id),
                )
                &&& generators.first() == self.inner()
                &&& generators.last() == after.inner()
                &&& registries.first() == before
                &&& registries.last() == maps
            }
    }

    fn dun_gen_map(&mut self, maps: &mut MapRegistry, map_id: MapId) {
        let targets: Vec<MapId> = portal_targets(maps, map_id);
        apply_in_turn(&mut self.dun_gen, maps, &targets);
    }
}

} // verus!
