//! The generator contract and the pipeline that applies generators to a root
//! map.

use crate::map::MapId;
use crate::registry::{MapRegistry, RegistryModel};
use vstd::prelude::*;

verus! {

/// A unit of map generation. A generator is applied to one map of a registry
/// and may rewrite that map and any map it can reach from there, and may add
/// maps to the registry.
pub trait DoesDunGen: Sized {
    /// Whether the generator is fit to be applied.
    spec fn wf(&self) -> bool;

    /// What one application can do: `self` applied to the map `map_id` of
    /// the registry `before` may leave the registry as `maps` and the
    /// generator as `after`.
    spec fn effect(
        &self,
        after: &Self,
        before: RegistryModel,
        map_id: MapId,
        maps: RegistryModel,
    ) -> bool;

    /// Applies the generator to the map that `map_id` names.
    fn dun_gen_map(&mut self, maps: &mut MapRegistry, map_id: MapId)
        requires
            old(self).wf(),
            old(maps).wf(),
            old(maps)@.contains(map_id),
        ensures
            final(self).wf(),
            final(maps).wf(),
            final(maps)@.extends(old(maps)@),
            old(self).effect(final(self), old(maps)@, map_id, final(maps)@),
    ;

    /// Applies the generator to the root map of the pipeline `target`.
    fn dun_gen(&mut self, target: &mut DunGen)
        requires
            old(self).wf(),
            old(target).wf(),
        ensures
            final(self).wf(),
            final(target).wf(),
            final(target)@.map_id == old(target)@.map_id,
            final(target)@.maps.extends(old(target)@.maps),
            old(self).effect(
                final(self),
                old(target)@.maps,
                old(target)@.map_id,
                final(target)@.maps,
            ),
    {
        let map_id = target.map_id;
        self.dun_gen_map(&mut target.maps, map_id);
    }
}

/// A kind of generator that needs no instance: all it has to know it takes
/// from the map it is applied to.
pub trait DoesDunGenStatic {
    /// What one application can do: applied to the map `map_id` of the
    /// registry `before`, it may leave the registry as `maps`.
    spec fn static_effect(before: RegistryModel, map_id: MapId, maps: RegistryModel) -> bool;

    /// Applies the generator to the map that `map_id` names.
    fn dun_gen_map_static(maps: &mut MapRegistry, map_id: MapId)
        requires
            old(maps).wf(),
            old(maps)@.contains(map_id),
        ensures
            final(maps).wf(),
            final(maps)@.extends(old(maps)@),
            Self::static_effect(old(maps)@, map_id, final(maps)@),
    ;

    /// Applies the generator to the root map of the pipeline `target`.
    fn dun_gen_static(target: &mut DunGen)
        requires
            old(target).wf(),
        ensures
            final(target).wf(),
            final(target)@.map_id == old(target)@.map_id,
            final(target)@.maps.extends(old(target)@.maps),
            Self::static_effect(old(target)@.maps, old(target)@.map_id, final(target)@.maps),
    {
        let map_id = target.map_id;
        Self::dun_gen_map_static(&mut target.maps, map_id);
    }
}

/// Whether step `k` of a run of applications holds: the generator in its
/// state `generators[k]`, applied to the map `map_ids[k]` of the registry
/// `registries[k]`, can leave the registry as `registries[k + 1]` and itself
/// as `generators[k + 1]`.
pub open spec fn is_application<TDoesDunGen: DoesDunGen>(
    generators: Seq<TDoesDunGen>,
    registries: Seq<RegistryModel>,
    map_ids: Seq<MapId>,
    k: int,
) -> bool {
    &&& registries[k].wf()
    &&& registries[k].contains(map_ids[k])
    &&& generators[k].effect(&generators[k + 1], registries[k], map_ids[k], registries[k + 1])
    &&& registries[k + 1].wf()
    &&& registries[k + 1].extends(registries[k])
}

/// Whether a generator has been applied to the maps `map_ids` in turn:
/// `generators` and `registries` hold the states of the generator and of
/// the registry before the first application and after each one.
pub open spec fn applied_in_turn<TDoesDunGen: DoesDunGen>(
    generators: Seq<TDoesDunGen>,
    registries: Seq<RegistryModel>,
    map_ids: Seq<MapId>,
) -> bool {
    &&& generators.len() == map_ids.len() + 1
    &&& registries.len() == map_ids.len() + 1
    &&& forall|k: int|
        0 <= k < map_ids.len() ==> #[trigger] is_application(generators, registries, map_ids, k)
}

/// One more application extends a run of applications.
pub proof fn lemma_applied_once_more<TDoesDunGen: DoesDunGen>(
    generators: Seq<TDoesDunGen>,
    registries: Seq<RegistryModel>,
    map_ids: Seq<MapId>,
    generator: TDoesDunGen,
    registry: RegistryModel,
    map_id: MapId,
)
    requires
        applied_in_turn(generators, registries, map_ids),
        registries.last().wf(),
        registries.last().contains(map_id),
        generators.last().effect(&generator, registries.last(), map_id, registry),
        registry.wf(),
        registry.extends(registries.last()),
    ensures
        applied_in_turn(generators.push(generator), registries.push(registry), map_ids.push(map_id)),
{
    let longer_generators = generators.push(generator);
    let longer_registries = registries.push(registry);
    let longer_ids = map_ids.push(map_id);
    assert forall|k: int| 0 <= k < longer_ids.len() implies #[trigger] is_application(
        longer_generators,
        longer_registries,
        longer_ids,
        k,
    ) by {
        if k < map_ids.len() {
            assert(is_application(generators, registries, map_ids, k));
        }
    }
}

/// The mathematical content of a pipeline.
pub struct DunGenModel {
    pub maps: RegistryModel,
    pub map_id: MapId,
}

/// A generation pipeline: a registry, a root map in it, and a fluent way to
/// apply generators to the root one after the other. Each generator sees the
/// complete effect of the generators applied before it.
pub struct DunGen {
    maps: MapRegistry,
    map_id: MapId,
}

impl View for DunGen {
    type V = DunGenModel;

    closed spec fn view(&self) -> DunGenModel {
        DunGenModel { maps: self.maps@, map_id: self.map_id }
    }
}

impl DunGen {
    /// The registry is well formed and holds the root map.
    pub open spec fn wf(&self) -> bool {
        self@.maps.wf() && self@.maps.contains(self@.map_id)
    }

    /// A pipeline that generates on the map `map_id` of `maps`.
    pub fn new(maps: MapRegistry, map_id: MapId) -> (dun_gen: DunGen)
        requires
            maps.wf(),
            maps@.contains(map_id),
        ensures
            dun_gen.wf(),
            dun_gen@.maps == maps@,
            dun_gen@.map_id == map_id,
    {
        DunGen { maps, map_id }
    }

    /// The handle of the root map.
    pub fn build(&mut self) -> (map_id: MapId)
        ensures
            map_id == old(self)@.map_id,
            *final(self) == *old(self),
    {
        self.map_id
    }

    /// The handle of the root map.
    pub fn get_map_id(&self) -> (map_id: MapId)
        ensures
            map_id == self@.map_id,
    {
        self.map_id
    }

    /// The registry the pipeline generates in.
    pub fn maps(&self) -> (maps: &MapRegistry)
        ensures
            maps@ == self@.maps,
    {
        &self.maps
    }

    /// Ends the pipeline and hands back its registry.
    pub fn into_maps(self) -> (maps: MapRegistry)
        ensures
            maps@ == self@.maps,
    {
        self.maps
    }

    /// Applies `with` to the root map and returns the pipeline for the next
    /// step.
    pub fn gen_with<TDoesDunGen: DoesDunGen>(&mut self, with: TDoesDunGen) -> (next: &mut Self)
        requires
            with.wf(),
            old(self).wf(),
        ensures
            *final(self) == *final(next),
            next.wf(),
            next@.map_id == old(self)@.map_id,
            next@.maps.extends(old(self)@.maps),
            exists|after: TDoesDunGen|
                #[trigger] with.effect(&after, old(self)@.maps, old(self)@.map_id, next@.maps),
    {
        let mut with = with;
        with.dun_gen(self);
        self
    }
}

} // verus!
