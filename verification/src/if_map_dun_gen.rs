//! Applies a generator only to maps, placed or not, that pass a test.

use crate::dun_gen::DoesDunGen;
use crate::dun_gen_placed::DoesDunGenPlaced;
use crate::if_map_then_generator::{is_total_test, test_answers};
use crate::map::MapId;
use crate::registry::{MapRegistry, RegistryModel};
use vstd::prelude::*;

verus! {

/// Applies a generator to a map if a test on the map, made before the
/// generator runs, says so; otherwise nothing changes. Maps and placed maps
/// each have a test of their own.
pub struct IfMapDunGen<TDunGen, TMapFunc, TPlacedMapFunc> where
    TDunGen: DoesDunGenPlaced,
    TMapFunc: Fn(&MapRegistry, MapId) -> bool,
    TPlacedMapFunc: Fn(&MapRegistry, MapId) -> bool,
 {
    map_func: TMapFunc,
    placed_map_func: TPlacedMapFunc,
    dun_gen: TDunGen,
}

impl<TDunGen, TMapFunc, TPlacedMapFunc> IfMapDunGen<TDunGen, TMapFunc, TPlacedMapFunc> where
    TDunGen: DoesDunGenPlaced,
    TMapFunc: Fn(&MapRegistry, MapId) -> bool,
    TPlacedMapFunc: Fn(&MapRegistry, MapId) -> bool,
 {
    pub closed spec fn map_func(&self) -> TMapFunc {
        self.map_func
    }

    pub closed spec fn placed_map_func(&self) -> TPlacedMapFunc {
        self.placed_map_func
    }

    pub closed spec fn inner(&self) -> TDunGen {
        self.dun_gen
    }

    /// A generator that applies `dun_gen` to the maps for which `map_func`
    /// answers `true`, and to the placed maps for which `placed_map_func`
    /// does.
    pub fn new(map_func: TMapFunc, placed_map_func: TPlacedMapFunc, dun_gen: TDunGen) -> (generator:
        Self)
        requires
            is_total_test(map_func),
            is_total_test(placed_map_func),
            dun_gen.wf(),
        ensures
            generator.wf(),
            generator.map_func() == map_func,
            generator.placed_map_func() == placed_map_func,
            generator.inner() == dun_gen,
    {
        Self { map_func, placed_map_func, dun_gen }
    }
}

impl<TDunGen, TMapFunc, TPlacedMapFunc> DoesDunGen for IfMapDunGen<
    TDunGen,
    TMapFunc,
    TPlacedMapFunc,
> where
    TDunGen: DoesDunGenPlaced,
    TMapFunc: Fn(&MapRegistry, MapId) -> bool,
    TPlacedMapFunc: Fn(&MapRegistry, MapId) -> bool,
 {
    open spec fn wf(&self) -> bool {
        &&& is_total_test(self.map_func())
        &&& is_total_test(self.placed_map_func())
        &&& self.inner().wf()
    }

    open spec fn effect(
        &self,
        after: &Self,
        before: RegistryModel,
        map_id: MapId,
        maps: RegistryModel,
    ) -> bool {
        &&& after.map_func() == self.map_func()
        &&& after.placed_map_func() == self.placed_map_func()
        &&& {
            ||| {
                &&& test_answers(self.map_func(), before, map_id, true)
                &&& self.inner().effect(&after.inner(), before, map_id, maps)
            }
            ||| {
                &&& test_answers(self.map_func(), before, map_id, false)
                &&& after.inner() == self.inner()
                &&& maps == before
            }
        }
    }

    fn dun_gen_map(&mut self, maps: &mut MapRegistry, map_id: MapId) {
        let verdict: bool = (self.map_func)(&*maps, map_id);
        proof {
            assert(call_ensures(self.map_func, (&*maps, map_id), verdict));
            assert(test_answers(self.map_func(), maps@, map_id, verdict));
        }
        if verdict {
            self.dun_gen.dun_gen_map(maps, map_id);
        }
    }
}

impl<TDunGen, TMapFunc, TPlacedMapFunc> DoesDunGenPlaced for IfMapDunGen<
    TDunGen,
    TMapFunc,
    TPlacedMapFunc,
> where
    TDunGen: DoesDunGenPlaced,
    TMapFunc: Fn(&MapRegistry, MapId) -> bool,
    TPlacedMapFunc: Fn(&MapRegistry, MapId) -> bool,
 {
    open spec fn placed_effect(
        &self,
        after: &Self,
        before: RegistryModel,
        map_id: MapId,
        maps: RegistryModel,
    ) -> bool {
        &&& after.map_func() == self.map_func()
        &&& after.placed_map_func() == self.placed_map_func()
        &&& {
            ||| {
                &&& test_answers(self.placed_map_func(), before, map_id, true)
                &&& self.inner().placed_effect(&after.inner(), before, map_id, maps)
            }
            ||| {
                &&& test_answers(self.placed_map_func(), before, map_id, false)
                &&& after.inner() == self.inner()
                &&& maps == before
            }
        }
    }

    fn dun_gen_placed_map(&mut self, maps: &mut MapRegistry, map_id: MapId) {
        let verdict: bool = (self.placed_map_func)(&*maps, map_id);
        proof {
            assert(call_ensures(self.placed_map_func, (&*maps, map_id), verdict));
            assert(test_answers(self.placed_map_func(), maps@, map_id, verdict));
        }
        if verdict {
            self.dun_gen.dun_gen_placed_map(maps, map_id);
        }
    }
}

} // verus!
