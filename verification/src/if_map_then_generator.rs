//! Applies a generator only to maps that pass a test.

use crate::dun_gen::DoesDunGen;
use crate::map::MapId;
use crate::registry::{MapRegistry, RegistryModel};
use vstd::prelude::*;

verus! {

/// Whether `map_func` can be called on every map of every well-formed
/// registry.
pub open spec fn is_total_test<TMapFunc: Fn(&MapRegistry, MapId) -> bool>(map_func: TMapFunc) -> bool {
    forall|maps: MapRegistry, map_id: MapId|
        maps.wf() && maps@.contains(map_id) ==> #[trigger] call_requires(map_func, (&maps, map_id))
}

/// Whether `map_func` can answer `verdict` for the map `map_id` of a
/// registry with the content `maps`.
pub open spec fn test_answers<TMapFunc: Fn(&MapRegistry, MapId) -> bool>(
    map_func: TMapFunc,
    maps: RegistryModel,
    map_id: MapId,
    verdict: bool,
) -> bool {
    exists|registry: MapRegistry|
        registry@ == maps && #[trigger] call_ensures(map_func, (&registry, map_id), verdict)
}

/// Applies a generator to a map if a test on the map, made before the
/// generator runs, says so; otherwise nothing changes.
pub struct IfMapThenGenerator<TDunGen, TMapFunc> where
    TDunGen: DoesDunGen,
    TMapFunc: Fn(&MapRegistry, MapId) -> bool,
 {
    map_func: TMapFunc,
    dun_gen: TDunGen,
}

impl<TDunGen, TMapFunc> IfMapThenGenerator<TDunGen, TMapFunc> where
    TDunGen: DoesDunGen,
    TMapFunc: Fn(&MapRegistry, MapId) -> bool,
 {
    pub closed spec fn map_func(&self) -> TMapFunc {
        self.map_func
    }

    pub closed spec fn inner(&self) -> TDunGen {
        self.dun_gen
    }

    /// A generator that applies `dun_gen` to the maps for which `map_func`
    /// answers `true`.
    pub fn new(map_func: TMapFunc, dun_gen: TDunGen) -> (generator: Self)
        requires
            is_total_test(map_func),
            dun_gen.wf(),
        ensures
            generator.wf(),
            generator.map_func() == map_func,
            generator.inner() == dun_gen,
    {
        Self { map_func, dun_gen }
    }
}

impl<TDunGen, TMapFunc> DoesDunGen for IfMapThenGenerator<TDunGen, TMapFunc> where
    TDunGen: DoesDunGen,
    TMapFunc: Fn(&MapRegistry, MapId) -> bool,
 {
    open spec fn wf(&self) -> bool {
        is_total_test(self.map_func()) && self.inner().wf()
    }

    open spec fn effect(
        &self,
        after: &Self,
        before: RegistryModel,
        map_id: MapId,
        maps: RegistryModel,
    ) -> bool {
        &&& after.map_func() == self.map_func()
        &&& {
            ||| {
                &&& test_answers(self.map_func(), before, map_id, true)
                &&& self.inner().effect(&after.inner(), before, map_id, maps)
            }
            ||| {
                &&& test_answers(self.map_func(), before, map_id, false)
                &&& after.inner() == self.inner()
                &&& maps == before
            }
        }
    }

    fn dun_gen_map(&mut self, maps: &mut MapRegistry, map_id: MapId) {
        let verdict: bool = (self.map_func)(&*maps, map_id);
        proof {
            assert(call_ensures(self.map_func, (&*maps, map_id), verdict));
            assert(test_answers(self.map_func(), maps@, map_id, verdict));
        }
        if verdict {
            self.dun_gen.dun_gen_map(maps, map_id);
        }
    }
}

} // verus!
