//! The generator contract for placed maps, and the pipeline that applies
//! generators to a root map with a known position.

use crate::dun_gen::DoesDunGen;
use crate::geometry::Position;
use crate::map::{contains_id, MapId};
use crate::merge_portal_maps_as_sub_maps_generator::{lemma_unvisited_push, unvisited};
use crate::registry::{MapRegistry, RegistryModel};
use crate::traverse_portals_generator::portal_targets;
use vstd::prelude::*;

verus! {

/// A generator that can also be applied to a placed map: a map with a known
/// position.
pub trait DoesDunGenPlaced: DoesDunGen {
    /// What one application to a placed map can do: `self` applied to the
    /// placed map `map_id` of the registry `before` may leave the registry
    /// as `maps` and the generator as `after`.
    spec fn placed_effect(
        &self,
        after: &Self,
        before: RegistryModel,
        map_id: MapId,
        maps: RegistryModel,
    ) -> bool;

    /// Applies the generator to the placed map that `map_id` names.
    fn dun_gen_placed_map(&mut self, maps: &mut MapRegistry, map_id: MapId)
        requires
            old(self).wf(),
            old(maps).wf(),
            old(maps)@.contains(map_id),
        ensures
            final(self).wf(),
            final(maps).wf(),
            final(maps)@.extends(old(maps)@),
            old(self).placed_effect(final(self), old(maps)@, map_id, final(maps)@),
    ;

    /// Applies the generator to the root map of the pipeline `target`.
    fn dun_gen_placed(&mut self, target: &mut DunGenPlaced)
        requires
            old(self).wf(),
            old(target).wf(),
        ensures
            final(self).wf(),
            final(target).wf(),
            final(target)@.map_id == old(target)@.map_id,
            final(target)@.position == old(target)@.position,
            final(target)@.maps.extends(old(target)@.maps),
            old(self).placed_effect(
                final(self),
                old(target)@.maps,
                old(target)@.map_id,
                final(target)@.maps,
            ),
    {
        let map_id = target.map_id;
        self.dun_gen_placed_map(&mut target.maps, map_id);
    }
}

/// A kind of generator for placed maps that needs no instance.
pub trait DoesDunGenPlacedStatic {
    /// What one application can do: applied to the placed map `map_id` of
    /// the registry `before`, it may leave the registry as `maps`.
    spec fn placed_static_effect(before: RegistryModel, map_id: MapId, maps: RegistryModel) -> bool;

    /// Applies the generator to the placed map that `map_id` names.
    fn dun_gen_placed_map_static(maps: &mut MapRegistry, map_id: MapId)
        requires
            old(maps).wf(),
            old(maps)@.contains(map_id),
        ensures
            final(maps).wf(),
            final(maps)@.extends(old(maps)@),
            Self::placed_static_effect(old(maps)@, map_id, final(maps)@),
    ;

    /// Applies the generator to the root map of the pipeline `target`.
    fn dun_gen_placed_static(target: &mut DunGenPlaced)
        requires
            old(target).wf(),
        ensures
            final(target).wf(),
            final(target)@.map_id == old(target)@.map_id,
            final(target)@.position == old(target)@.position,
            final(target)@.maps.extends(old(target)@.maps),
            Self::placed_static_effect(
                old(target)@.maps,
                old(target)@.map_id,
                final(target)@.maps,
            ),
    {
        let map_id = target.map_id;
        Self::dun_gen_placed_map_static(&mut target.maps, map_id);
    }
}

/// The mathematical content of a pipeline on a placed map.
pub struct DunGenPlacedModel {
    pub maps: RegistryModel,
    pub position: Position,
    pub map_id: MapId,
}

/// A generation pipeline on a placed map: a registry, a root map in it, the
/// position of the root, and a fluent way to apply generators to the root
/// one after the other.
pub struct DunGenPlaced {
    maps: MapRegistry,
    position: Position,
    map_id: MapId,
}

impl View for DunGenPlaced {
    type V = DunGenPlacedModel;

    closed spec fn view(&self) -> DunGenPlacedModel {
        DunGenPlacedModel { maps: self.maps@, position: self.position, map_id: self.map_id }
    }
}

/// Where a walk to the leaves of the portal graph stands.
pub struct LeafWalk {
    /// The maps still to be looked at; the last one is next.
    pub stack: Seq<MapId>,
    /// The maps looked at so far.
    pub visited: Seq<MapId>,
    /// The registry.
    pub maps: RegistryModel,
}

impl LeafWalk {
    /// Whether the walk passes over the map that is next: only maps among
    /// the first `limit` handles are looked at, and each of them once.
    pub open spec fn skips_next(self, limit: nat) -> bool {
        self.stack.last().index >= limit || self.visited.contains(self.stack.last())
    }

    /// Whether the map that is next is a leaf: a map without portals.
    pub open spec fn is_at_leaf(self) -> bool {
        self.maps.portal_targets(self.stack.last()).len() == 0
    }

    /// Whether `next` is where the walk stands after it has passed over the
    /// map that is next.
    pub open spec fn skipped(self, next: LeafWalk) -> bool {
        &&& next.stack == self.stack.drop_last()
        &&& next.visited == self.visited
        &&& next.maps == self.maps
    }

    /// Whether `next` is where the walk stands after it has looked at the
    /// map that is next and found portals: the targets of the portals are
    /// looked at before anything else, in the order of the portals.
    pub open spec fn descended(self, next: LeafWalk) -> bool {
        &&& next.stack == self.stack.drop_last() + self.maps.portal_targets(
            self.stack.last(),
        ).reverse()
        &&& next.visited == self.visited.push(self.stack.last())
        &&& next.maps == self.maps
    }

    /// Whether `next` can be where the walk stands after it has looked at
    /// the map that is next and found a leaf, to which a generator has then
    /// been applied.
    pub open spec fn left_leaf(self, next: LeafWalk) -> bool {
        &&& next.stack == self.stack.drop_last()
        &&& next.visited == self.visited.push(self.stack.last())
        &&& next.maps.wf()
        &&& next.maps.extends(self.maps)
    }

    /// Whether `next` can be where the walk stands one step on, when the
    /// kind of generator `TDoesDunGenStatic` is applied to the leaves.
    pub open spec fn is_static_step<TDoesDunGenStatic: DoesDunGenPlacedStatic>(
        self,
        limit: nat,
        next: LeafWalk,
    ) -> bool {
        &&& self.stack.len() > 0
        &&& self.maps.wf()
        &&& if self.skips_next(limit) {
            self.skipped(next)
        } else if self.is_at_leaf() {
            &&& self.left_leaf(next)
            &&& TDoesDunGenStatic::placed_static_effect(self.maps, self.stack.last(), next.maps)
        } else {
            self.descended(next)
        }
    }

    /// Whether `next` can be where the walk stands one step on, when the
    /// generator `generator` is applied to the leaves and is left as
    /// `generator_next`.
    pub open spec fn is_step<TDoesDunGenPlaced: DoesDunGenPlaced>(
        self,
        limit: nat,
        next: LeafWalk,
        generator: TDoesDunGenPlaced,
        generator_next: TDoesDunGenPlaced,
    ) -> bool {
        &&& self.stack.len() > 0
        &&& self.maps.wf()
        &&& if self.skips_next(limit) {
            self.skipped(next) && generator_next == generator
        } else if self.is_at_leaf() {
            &&& self.left_leaf(next)
            &&& generator.placed_effect(&generator_next, self.maps, self.stack.last(), next.maps)
        } else {
            self.descended(next) && generator_next == generator
        }
    }
}

/// Whether step `k` of a walk holds, when the kind of generator
/// `TDoesDunGenStatic` is applied to the leaves.
pub open spec fn is_static_leaf_step<TDoesDunGenStatic: DoesDunGenPlacedStatic>(
    limit: nat,
    walk: Seq<LeafWalk>,
    k: int,
) -> bool {
    walk[k].is_static_step::<TDoesDunGenStatic>(limit, walk[k + 1])
}

/// Whether applying the kind of generator `TDoesDunGenStatic` to the leaves
/// that can be reached from the map `map_id` can turn the registry `before`
/// into `maps`. The walk starts at `map_id` and follows the portals, depth
/// first and in the order of the portals; it looks at each map once, and
/// only at maps that the registry held when the walk began.
pub open spec fn static_leaves_effect<TDoesDunGenStatic: DoesDunGenPlacedStatic>(
    before: RegistryModel,
    map_id: MapId,
    maps: RegistryModel,
) -> bool {
    exists|walk: Seq<LeafWalk>|
        {
            &&& walk.len() > 0
            &&& walk.first() == (LeafWalk {
                stack: seq![map_id],
                visited: Seq::empty(),
                maps: before,
            })
            &&& walk.last().stack.len() == 0
            &&& walk.last().maps == maps
            &&& forall|k: int|
                0 <= k < walk.len() - 1 ==> #[trigger] is_static_leaf_step::<TDoesDunGenStatic>(
                    before.len(),
                    walk,
                    k,
                )
        }
}

/// Whether step `k` of a walk holds, when a generator is applied to the
/// leaves that is in the state `generators[k]` before the step and in the
/// state `generators[k + 1]` after it.
pub open spec fn is_leaf_step<TDoesDunGenPlaced: DoesDunGenPlaced>(
    limit: nat,
    walk: Seq<LeafWalk>,
    generators: Seq<TDoesDunGenPlaced>,
    k: int,
) -> bool {
    walk[k].is_step(limit, walk[k + 1], generators[k], generators[k + 1])
}

/// Whether applying the generator `with` to the leaves that can be reached
/// from the map `map_id` can turn the registry `before` into `maps` and the
/// generator into `after`. The walk is the one of `static_leaves_effect`.
pub open spec fn leaves_effect<TDoesDunGenPlaced: DoesDunGenPlaced>(
    with: TDoesDunGenPlaced,
    after: TDoesDunGenPlaced,
    before: RegistryModel,
    map_id: MapId,
    maps: RegistryModel,
) -> bool {
    exists|walk: Seq<LeafWalk>, generators: Seq<TDoesDunGenPlaced>|
        {
            &&& walk.len() > 0
            &&& generators.len() == walk.len()
            &&& walk.first() == (LeafWalk {
                stack: seq![map_id],
                visited: Seq::empty(),
                maps: before,
            })
            &&& generators.first() == with
            &&& walk.last().stack.len() == 0
            &&& walk.last().maps == maps
            &&& generators.last() == after
            &&& forall|k: int|
                0 <= k < walk.len() - 1 ==> #[trigger] is_leaf_step(
                    before.len(),
                    walk,
                    generators,
                    k,
                )
        }
}

/// Puts `targets` on `stack` so that the first of them is on top.
fn push_reversed(stack: &mut Vec<MapId>, targets: &Vec<MapId>)
    ensures
        final(stack)@ == old(stack)@ + targets@.reverse(),
{
    let mut i: usize = targets.len();
    while i > 0
        invariant
            i <= targets@.len(),
            stack@ == old(stack)@ + targets@.subrange(i as int, targets@.len() as int).reverse(),
        decreases i,
    {
        i = i - 1;
        stack.push(targets[i]);
        proof {
            let rest = targets@.subrange(i + 1, targets@.len() as int);
            let more = targets@.subrange(i as int, targets@.len() as int);
            assert(more.reverse() =~= rest.reverse().push(targets@[i as int]));
        }
    }
    proof {
        assert(targets@.subrange(0, targets@.len() as int) =~= targets@);
    }
}

impl DunGenPlaced {
    /// The registry is well formed and holds the root map.
    pub open spec fn wf(&self) -> bool {
        self@.maps.wf() && self@.maps.contains(self@.map_id)
    }

    /// A pipeline that generates on the map `map_id` of `maps`, which lies
    /// at `position`.
    pub fn new(maps: MapRegistry, position: Position, map_id: MapId) -> (dun_gen: DunGenPlaced)
        requires
            maps.wf(),
            maps@.contains(map_id),
        ensures
            dun_gen.wf(),
            dun_gen@.maps == maps@,
            dun_gen@.position == position,
            dun_gen@.map_id == map_id,
    {
        DunGenPlaced { maps, position, map_id }
    }

    /// The handle of the root map.
    pub fn build(&mut self) -> (map_id: MapId)
        ensures
            map_id == old(self)@.map_id,
            *final(self) == *old(self),
    {
        self.map_id
    }

    /// The position of the root map.
    pub fn position(&self) -> (position: Position)
        ensures
            position == self@.position,
    {
        self.position
    }

    /// The registry the pipeline generates in.
    pub fn maps(&self) -> (maps: &MapRegistry)
        ensures
            maps@ == self@.maps,
    {
        &self.maps
    }

    /// Ends the pipeline and hands back its registry.
    pub fn into_maps(self) -> (maps: MapRegistry)
        ensures
            maps@ == self@.maps,
    {
        self.maps
    }

    /// Applies the kind of generator `TDoesDunGenStatic` to the root map
    /// and returns the pipeline for the next step.
    pub fn gen<TDoesDunGenStatic: DoesDunGenPlacedStatic>(&mut self) -> (next: &mut Self)
        requires
            old(self).wf(),
        ensures
            *final(self) == *final(next),
            next.wf(),
            next@.map_id == old(self)@.map_id,
            next@.position == old(self)@.position,
            next@.maps.extends(old(self)@.maps),
            TDoesDunGenStatic::placed_static_effect(
                old(self)@.maps,
                old(self)@.map_id,
                next@.maps,
            ),
    {
        TDoesDunGenStatic::dun_gen_placed_static(self);
        self
    }

    /// Applies `with` to the root map and returns the pipeline for the next
    /// step.
    pub fn gen_with<TDoesDunGen: DoesDunGenPlaced>(&mut self, with: TDoesDunGen) -> (next: &mut Self)
        requires
            with.wf(),
            old(self).wf(),
        ensures
            *final(self) == *final(next),
            next.wf(),
            next@.map_id == old(self)@.map_id,
            next@.position == old(self)@.position,
            next@.maps.extends(old(self)@.maps),
            exists|after: TDoesDunGen|
                #[trigger] with.placed_effect(
                    &after,
                    old(self)@.maps,
                    old(self)@.map_id,
                    next@.maps,
                ),
    {
        let mut with = with;
        with.dun_gen_placed(self);
        self
    }

    /// Applies the kind of generator `TDoesDunGenStatic` to the leaves that
    /// can be reached from the root map, and returns the pipeline for the
    /// next step. A leaf is a map without portals; the root is a leaf if it
    /// has none.
    pub fn gen_leaf_portals_static<TDoesDunGenStatic: DoesDunGenPlacedStatic>(&mut self) -> (next:
        &mut Self)
        requires
            old(self).wf(),
        ensures
            *final(self) == *final(next),
            next.wf(),
            next@.map_id == old(self)@.map_id,
            next@.position == old(self)@.position,
            next@.maps.extends(old(self)@.maps),
            static_leaves_effect::<TDoesDunGenStatic>(
                old(self)@.maps,
                old(self)@.map_id,
                next@.maps,
            ),
    {
        let map_id = self.map_id;
        Self::gen_leaf_portals_static_impl::<TDoesDunGenStatic>(&mut self.maps, map_id);
        self
    }

    /// Applies the kind of generator `TDoesDunGenStatic` to the leaves that
    /// can be reached from the map `current_map`.
    pub fn gen_leaf_portals_static_impl<TDoesDunGenStatic: DoesDunGenPlacedStatic>(
        maps: &mut MapRegistry,
        current_map: MapId,
    )
        requires
            old(maps).wf(),
            old(maps)@.contains(current_map),
        ensures
            final(maps).wf(),
            final(maps)@.extends(old(maps)@),
            static_leaves_effect::<TDoesDunGenStatic>(old(maps)@, current_map, final(maps)@),
    {
        let limit: usize = maps.len();
        let mut stack: Vec<MapId> = Vec::new();
        stack.push(current_map);
        let mut visited: Vec<MapId> = Vec::new();
        let ghost mut walk: Seq<LeafWalk> = seq![
            LeafWalk { stack: stack@, visited: visited@, maps: maps@ },
        ];
        while stack.len() > 0
            invariant
                limit == old(maps)@.len(),
                maps.wf(),
                maps@.extends(old(maps)@),
                walk.len() > 0,
                walk.first() == (LeafWalk {
                    stack: seq![current_map],
                    visited: Seq::empty(),
                    maps: old(maps)@,
                }),
                walk.last() == (LeafWalk { stack: stack@, visited: visited@, maps: maps@ }),
                forall|k: int|
                    0 <= k < walk.len() - 1 ==> #[trigger] is_static_leaf_step::<TDoesDunGenStatic>(
                        limit as nat,
                        walk,
                        k,
                    ),
            decreases unvisited(limit as nat, visited@), stack@.len(),
        {
            let ghost here = walk.last();
            let id: MapId = stack.pop().unwrap();
            if id.index < limit && !contains_id(&visited, id) {
                proof {
                    lemma_unvisited_push(limit as nat, visited@, id);
                }
                visited.push(id);
                let targets: Vec<MapId> = portal_targets(maps, id);
                if targets.len() == 0 {
                    TDoesDunGenStatic::dun_gen_placed_map_static(maps, id);
                } else {
                    push_reversed(&mut stack, &targets);
                }
            }
            proof {
                let next = LeafWalk { stack: stack@, visited: visited@, maps: maps@ };
                let longer = walk.push(next);
                assert(here.is_static_step::<TDoesDunGenStatic>(limit as nat, next));
                assert forall|k: int| 0 <= k < longer.len() - 1 implies #[trigger] is_static_leaf_step::<
                    TDoesDunGenStatic,
                >(limit as nat, longer, k) by {
                    if k < walk.len() - 1 {
                        assert(is_static_leaf_step::<TDoesDunGenStatic>(limit as nat, walk, k));
                        assert(longer[k] == walk[k]);
                        assert(longer[k + 1] == walk[k + 1]);
                    } else {
                        assert(longer[k] == here);
                        assert(longer[k + 1] == next);
                    }
                }
                walk = longer;
            }
        }
    }

    /// Applies `with` to the leaves that can be reached from the root map,
    /// and returns the pipeline for the next step. A leaf is a map without
    /// portals; the root is a leaf if it has none.
    pub fn gen_leaf_portals_with<TDoesDunGenPlaced: DoesDunGenPlaced>(
        &mut self,
        with: &mut TDoesDunGenPlaced,
    ) -> (next: &mut Self)
        requires
            old(with).wf(),
            old(self).wf(),
        ensures
            final(with).wf(),
            *final(self) == *final(next),
            next.wf(),
            next@.map_id == old(self)@.map_id,
            next@.position == old(self)@.position,
            next@.maps.extends(old(self)@.maps),
            leaves_effect(
                *old(with),
                *final(with),
                old(self)@.maps,
                old(self)@.map_id,
                next@.maps,
            ),
    {
        let map_id = self.map_id;
        Self::gen_leaf_portals_with_impl(&mut self.maps, map_id, with);
        self
    }

    /// Applies `with` to the leaves that can be reached from the map
    /// `current_map`.
    pub fn gen_leaf_portals_with_impl<TDoesDunGenPlaced: DoesDunGenPlaced>(
        maps: &mut MapRegistry,
        current_map: MapId,
        with: &mut TDoesDunGenPlaced,
    )
        requires
            old(with).wf(),
            old(maps).wf(),
            old(maps)@.contains(current_map),
        ensures
            final(with).wf(),
            final(maps).wf(),
            final(maps)@.extends(old(maps)@),
            leaves_effect(*old(with), *final(with), old(maps)@, current_map, final(maps)@),
    {
        let limit: usize = maps.len();
        let mut stack: Vec<MapId> = Vec::new();
        stack.push(current_map);
        let mut visited: Vec<MapId> = Vec::new();
        let ghost mut walk: Seq<LeafWalk> = seq![
            LeafWalk { stack: stack@, visited: visited@, maps: maps@ },
        ];
        let ghost mut generators: Seq<TDoesDunGenPlaced> = seq![*with];
        while stack.len() > 0
            invariant
                limit == old(maps)@.len(),
                with.wf(),
                maps.wf(),
                maps@.extends(old(maps)@),
                walk.len() > 0,
                generators.len() == walk.len(),
                walk.first() == (LeafWalk {
                    stack: seq![current_map],
                    visited: Seq::empty(),
                    maps: old(maps)@,
                }),
                generators.first() == *old(with),
                walk.last() == (LeafWalk { stack: stack@, visited: visited@, maps: maps@ }),
                generators.last() == *with,
                forall|k: int|
                    0 <= k < walk.len() - 1 ==> #[trigger] is_leaf_step(
                        limit as nat,
                        walk,
                        generators,
                        k,
                    ),
            decreases unvisited(limit as nat, visited@), stack@.len(),
        {
            let ghost here = walk.last();
            let ghost generator_here = *with;
            let id: MapId = stack.pop().unwrap();
            if id.index < limit && !contains_id(&visited, id) {
                proof {
                    lemma_unvisited_push(limit as nat, visited@, id);
                }
                visited.push(id);
                let targets: Vec<MapId> = portal_targets(maps, id);
                if targets.len() == 0 {
                    with.dun_gen_placed_map(maps, id);
                } else {
                    push_reversed(&mut stack, &targets);
                }
            }
            proof {
                let next = LeafWalk { stack: stack@, visited: visited@, maps: maps@ };
                let longer = walk.push(next);
                let longer_generators = generators.push(*with);
                assert(here.is_step(limit as nat, next, generator_here, *with));
                assert forall|k: int| 0 <= k < longer.len() - 1 implies #[trigger] is_leaf_step(
                    limit as nat,
                    longer,
                    longer_generators,
                    k,
                ) by {
                    if k < walk.len() - 1 {
                        assert(is_leaf_step(limit as nat, walk, generators, k));
                        assert(longer[k] == walk[k]);
                        assert(longer[k + 1] == walk[k + 1]);
                        assert(longer_generators[k] == generators[k]);
                        assert(longer_generators[k + 1] == generators[k + 1]);
                    } else {
                        assert(longer[k] == here);
                        assert(longer[k + 1] == next);
                        assert(longer_generators[k] == generator_here);
                    }
                }
                walk = longer;
                generators = longer_generators;
            }
        }
    }
}

} // verus!
