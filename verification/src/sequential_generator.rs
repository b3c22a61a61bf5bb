//! Applies two generators one after the other.

use crate::dun_gen::DoesDunGen;
use crate::map::MapId;
use crate::registry::{MapRegistry, RegistryModel};
use vstd::prelude::*;

verus! {

/// Applies a first generator and then a second one to the same map. The
/// second generator sees the complete effect of the first. A longer sequence
/// is a sequence whose second generator is a sequence.
pub struct SequentialGenerator<TFirst, TSecond> where TFirst: DoesDunGen, TSecond: DoesDunGen {
    first: TFirst,
    second: TSecond,
}

impl<TFirst, TSecond> SequentialGenerator<TFirst, TSecond> where
    TFirst: DoesDunGen,
    TSecond: DoesDunGen,
 {
    pub closed spec fn first(&self) -> TFirst {
        self.first
    }

    pub closed spec fn second(&self) -> TSecond {
        self.second
    }

    /// A generator that applies `first` and then `second`.
    pub fn new(first: TFirst, second: TSecond) -> (generator: Self)
        requires
            first.wf(),
            second.wf(),
        ensures
            generator.wf(),
            generator.first() == first,
            generator.second() == second,
    {
        Self { first, second }
    }
}

impl<TFirst, TSecond> DoesDunGen for SequentialGenerator<TFirst, TSecond> where
    TFirst: DoesDunGen,
    TSecond: DoesDunGen,
 {
    open spec fn wf(&self) -> bool {
        self.first().wf() && self.second().wf()
    }

    open spec fn effect(
        &self,
        after: &Self,
        before: RegistryModel,
        map_id: MapId,
        maps: RegistryModel,
    ) -> bool {
        exists|between: RegistryModel|
            {
                &&& #[trigger] self.first().effect(&after.first(), before, map_id, between)
                &&& between.wf()
                &&& between.extends(before)
                &&& self.second().effect(&after.second(), between, map_id, maps)
            }
    }

    fn dun_gen_map(&mut self, maps: &mut MapRegistry, map_id: MapId) {
        self.first.dun_gen_map(maps, map_id);
        let ghost between = maps@;
        self.second.dun_gen_map(maps, map_id);
        proof {
            assert(old(self).first().effect(&self.first(), old(maps)@, map_id, between));
        }
    }
}

} // verus!
