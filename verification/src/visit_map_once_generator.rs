//! Guards a generator so that it runs at most once on each map.

use crate::dun_gen::{applied_in_turn, is_application, DoesDunGen};
use crate::map::{contains_id, MapId};
use crate::registry::{MapRegistry, RegistryModel};
use crate::traverse_this_and_portals_generator::TraverseThisAndPortalsGenerator;
use vstd::prelude::*;

verus! {

/// The maps visited after the maps `offered` have been offered in turn to a
/// guard that had visited `visited`: each offered map that had not been
/// visited by then joins the visited maps, in the order of the offers.
pub open spec fn first_visits(visited: Seq<MapId>, offered: Seq<MapId>) -> Seq<MapId>
    decreases offered.len(),
{
    if offered.len() == 0 {
        visited
    } else {
        let earlier = first_visits(visited, offered.drop_last());
        if earlier.contains(offered.last()) {
            earlier
        } else {
            earlier.push(offered.last())
        }
    }
}

/// Applies a generator to a map unless it has been applied to that map
/// before. The guard remembers the maps it has been offered, from one
/// application to the next, for as long as it lives: the check and the
/// entry are one step, and the wrapped generator runs exactly once for each
/// map that is entered.
pub struct VisitMapOnceGenerator<TDunGen> where TDunGen: DoesDunGen {
    visited_maps: Vec<MapId>,
    dun_gen: TDunGen,
}

impl<TDunGen> VisitMapOnceGenerator<TDunGen> where TDunGen: DoesDunGen {
    pub closed spec fn inner(&self) -> TDunGen {
        self.dun_gen
    }

    /// The maps on which the wrapped generator has run, in the order of the
    /// runs. In a guard that is fit to be applied no map occurs twice.
    pub closed spec fn visited(&self) -> Seq<MapId> {
        self.visited_maps@
    }

    /// A guard around `dun_gen` that has not visited any map yet.
    pub fn new(dun_gen: TDunGen) -> (generator: Self)
        requires
            dun_gen.wf(),
        ensures
            generator.wf(),
            generator.inner() == dun_gen,
            generator.visited() == Seq::<MapId>::empty(),
    {
        Self { visited_maps: Vec::new(), dun_gen }
    }

    /// The maps on which the wrapped generator has run, in the order of the
    /// runs.
    pub fn visited_maps(&self) -> (visited: &Vec<MapId>)
        ensures
            visited@ == self.visited(),
    {
        &self.visited_maps
    }
}

impl<TDunGen> DoesDunGen for VisitMapOnceGenerator<TDunGen> where TDunGen: DoesDunGen {
    open spec fn wf(&self) -> bool {
        self.inner().wf() && self.visited().no_duplicates()
    }

    open spec fn effect(
        &self,
        after: &Self,
        before: RegistryModel,
        map_id: MapId,
        maps: RegistryModel,
    ) -> bool {
        if self.visited().contains(map_id) {
            &&& after.visited() == self.visited()
            &&& after.inner() == self.inner()
            &&& maps == before
        } else {
            &&& after.visited() == self.visited().push(map_id)
            &&& self.inner().effect(&after.inner(), before, map_id, maps)
        }
    }

    fn dun_gen_map(&mut self, maps: &mut MapRegistry, map_id: MapId) {
        if contains_id(&self.visited_maps, map_id) {
            return ;
        }
        self.visited_maps.push(map_id);
        self.dun_gen.dun_gen_map(maps, map_id);
    }
}

/// A guard that is applied to a map twice runs the wrapped generator at
/// most once: the second application changes neither the registry nor the
/// wrapped generator nor the visited maps.
pub proof fn lemma_second_visit_is_skipped<TDunGen: DoesDunGen>(
    first: VisitMapOnceGenerator<TDunGen>,
    second: VisitMapOnceGenerator<TDunGen>,
    third: VisitMapOnceGenerator<TDunGen>,
    before: RegistryModel,
    between: RegistryModel,
    maps: RegistryModel,
    map_id: MapId,
)
    requires
        first.effect(&second, before, map_id, between),
        second.effect(&third, between, map_id, maps),
    ensures
        maps == between,
        third.inner() == second.inner(),
        third.visited() == second.visited(),
        second.visited().contains(map_id),
{
    if !first.visited().contains(map_id) {
        assert(second.visited().last() == map_id);
    }
}

/// Offering maps keeps the maps visited before, in their order, and adds
/// offered maps only.
pub proof fn lemma_first_visits(visited: Seq<MapId>, offered: Seq<MapId>)
    ensures
        visited.len() <= first_visits(visited, offered).len(),
        first_visits(visited, offered).subrange(0, visited.len() as int) == visited,
        forall|id: MapId|
            first_visits(visited, offered).contains(id) <==> visited.contains(id)
                || offered.contains(id),
        visited.no_duplicates() ==> first_visits(visited, offered).no_duplicates(),
    decreases offered.len(),
{
    let after = first_visits(visited, offered);
    if offered.len() == 0 {
        assert(after.subrange(0, visited.len() as int) =~= visited);
    } else {
        let earlier = first_visits(visited, offered.drop_last());
        let last = offered.last();
        lemma_first_visits(visited, offered.drop_last());
        assert(after.subrange(0, visited.len() as int) =~= earlier.subrange(
            0,
            visited.len() as int,
        ));
        assert forall|id: MapId| after.contains(id) <==> visited.contains(id) || offered.contains(
            id,
        ) by {
            if offered.contains(id) {
                let k = choose|k: int| 0 <= k < offered.len() && offered[k] == id;
                if k < offered.len() - 1 {
                    assert(offered.drop_last()[k] == id);
                }
            }
            if offered.drop_last().contains(id) {
                let k = choose|k: int| 0 <= k < offered.drop_last().len() && offered.drop_last()[k] == id;
                assert(offered[k] == id);
            }
            if earlier.contains(id) {
                let k = choose|k: int| 0 <= k < earlier.len() && earlier[k] == id;
                assert(after[k] == id);
            }
            if after.contains(id) && !earlier.contains(id) {
                let k = choose|k: int| 0 <= k < after.len() && after[k] == id;
                if k < earlier.len() {
                    assert(earlier[k] == id);
                }
                assert(id == last);
            }
            if id == last {
                assert(offered[offered.len() - 1] == id);
                if !earlier.contains(last) {
                    assert(after[earlier.len() as int] == id);
                }
            }
        }
    }
}

/// A guard that has not visited any map and is offered maps in sequence
/// runs the wrapped generator exactly once for each distinct map, however
/// often the map is offered: the visited maps hold each offered map once,
/// so there are as many runs as there are distinct offered maps.
pub proof fn lemma_one_visit_per_map(offered: Seq<MapId>)
    ensures
        first_visits(Seq::empty(), offered).no_duplicates(),
        first_visits(Seq::empty(), offered).to_set() == offered.to_set(),
        first_visits(Seq::empty(), offered).len() == offered.to_set().len(),
{
    let visited = first_visits(Seq::empty(), offered);
    lemma_first_visits(Seq::empty(), offered);
    assert(visited.to_set() =~= offered.to_set());
    visited.unique_seq_to_set();
}

/// Offering maps that have all been visited changes nothing.
pub proof fn lemma_visited_maps_are_skipped(visited: Seq<MapId>, offered: Seq<MapId>)
    requires
        forall|k: int| 0 <= k < offered.len() ==> visited.contains(#[trigger] offered[k]),
    ensures
        first_visits(visited, offered) == visited,
    decreases offered.len(),
{
    if offered.len() > 0 {
        lemma_visited_maps_are_skipped(visited, offered.drop_last());
        assert(visited.contains(offered[offered.len() - 1]));
    }
}

/// The visited maps of a guard that has been applied to maps in turn are
/// the first visits among those maps: the wrapped generator has run once
/// for each map that the guard had not visited when the map was offered.
pub proof fn lemma_guard_records_first_visits<TDunGen: DoesDunGen>(
    generators: Seq<VisitMapOnceGenerator<TDunGen>>,
    registries: Seq<RegistryModel>,
    map_ids: Seq<MapId>,
)
    requires
        applied_in_turn(generators, registries, map_ids),
    ensures
        generators.last().visited() == first_visits(generators.first().visited(), map_ids),
    decreases map_ids.len(),
{
    if map_ids.len() > 0 {
        let n = map_ids.len() as int;
        let shorter_generators = generators.drop_last();
        let shorter_registries = registries.drop_last();
        let shorter_ids = map_ids.drop_last();
        assert forall|k: int| 0 <= k < shorter_ids.len() implies #[trigger] is_application(
            shorter_generators,
            shorter_registries,
            shorter_ids,
            k,
        ) by {
            assert(is_application(generators, registries, map_ids, k));
        }
        lemma_guard_records_first_visits(shorter_generators, shorter_registries, shorter_ids);
        assert(is_application(generators, registries, map_ids, n - 1));
        assert(shorter_generators.last() == generators[n - 1]);
        assert(shorter_generators.first() == generators.first());
    }
}

/// What a traversal offers to a guard: a guarded generator that is applied
/// to a map and to the maps behind its portals is offered that map and then
/// the targets of its portals, as they are once the generator has run on
/// the map, and its visited maps are the first visits among those.
pub proof fn lemma_traversal_offers_this_and_targets<TDunGen: DoesDunGen>(
    traversal: TraverseThisAndPortalsGenerator<VisitMapOnceGenerator<TDunGen>>,
    after: TraverseThisAndPortalsGenerator<VisitMapOnceGenerator<TDunGen>>,
    before: RegistryModel,
    map_id: MapId,
    maps: RegistryModel,
) -> (here: RegistryModel)
    requires
        traversal.effect(&after, before, map_id, maps),
    ensures
        here.wf(),
        here.extends(before),
        after.inner().visited() == first_visits(
            traversal.inner().visited(),
            seq![map_id] + here.portal_targets(map_id),
        ),
{
    let (generators, registries) = choose|
        generators: Seq<VisitMapOnceGenerator<TDunGen>>,
        registries: Seq<RegistryModel>,
    |
        {
            &&& #[trigger] applied_in_turn(
                generators,
                registries,
                seq![map_id] + registries[1].portal_targets(map_id),
            )
            &&& generators.first() == traversal.inner()
            &&& generators.last() == after.inner()
            &&& registries.first() == before
            &&& registries.last() == maps
        };
    let offered = seq![map_id] + registries[1].portal_targets(map_id);
    assert(is_application(generators, registries, offered, 0));
    lemma_guard_records_first_visits(generators, registries, offered);
    registries[1]
}

/// The maps that one pass around a cycle of portals offers to a guard: the
/// guarded generator is applied to each map of the cycle and to the next
/// one, which lies behind its portal, and the last map leads back to the
/// first.
pub open spec fn offered_around(cycle: Seq<MapId>, upto: nat) -> Seq<MapId>
    decreases upto,
{
    if upto == 0 {
        Seq::empty()
    } else {
        let here = cycle[upto - 1];
        let next = if upto == cycle.len() {
            cycle[0]
        } else {
            cycle[upto as int]
        };
        offered_around(cycle, (upto - 1) as nat).push(here).push(next)
    }
}

/// The maps visited while a guarded generator is applied to the first
/// `upto` maps of a cycle and to the maps behind their portals: those maps
/// and the one after them, each once, in the order of the cycle.
proof fn lemma_visits_around(cycle: Seq<MapId>, upto: nat)
    requires
        cycle.no_duplicates(),
        0 < upto <= cycle.len(),
    ensures
        first_visits(Seq::empty(), offered_around(cycle, upto)) == if upto == cycle.len() {
            cycle
        } else {
            cycle.take(upto as int + 1)
        },
    decreases upto,
{
    let here = cycle[upto - 1];
    let next = if upto == cycle.len() {
        cycle[0]
    } else {
        cycle[upto as int]
    };
    let shorter = offered_around(cycle, (upto - 1) as nat);
    let offered = offered_around(cycle, upto);
    assert(offered.drop_last() =~= shorter.push(here));
    assert(shorter.push(here).drop_last() =~= shorter);
    let visited = first_visits(Seq::empty(), shorter);
    if upto == 1 {
        assert(visited =~= Seq::<MapId>::empty());
        assert(first_visits(Seq::empty(), shorter.push(here)) =~= seq![here]);
        if cycle.len() == 1 {
            assert(seq![here] =~= cycle);
            assert(seq![here][0] == next);
        } else {
            assert(!seq![here].contains(next));
            assert(seq![here].push(next) =~= cycle.take(2));
        }
    } else {
        lemma_visits_around(cycle, (upto - 1) as nat);
        assert(visited == cycle.take(upto as int));
        assert(visited[upto - 1] == here);
        assert(first_visits(Seq::empty(), shorter.push(here)) == visited);
        if upto == cycle.len() {
            assert(cycle.take(upto as int) =~= cycle);
            assert(visited[0] == next);
        } else {
            assert(!visited.contains(next));
            assert(visited.push(next) =~= cycle.take(upto as int + 1));
        }
    }
}

/// Traversal of a cycle of portals terminates and visits each map once.
/// When a guarded generator is applied to each map of a cycle and to the map
/// behind its portal, the wrapped generator runs exactly once on each map of
/// the cycle, in the order of the cycle, and going around the cycle again,
/// or any part of it, runs it on no map.
pub proof fn lemma_cycle_is_visited_once(cycle: Seq<MapId>, again: Seq<MapId>)
    requires
        cycle.no_duplicates(),
        cycle.len() > 0,
        forall|k: int| 0 <= k < again.len() ==> cycle.contains(#[trigger] again[k]),
    ensures
        first_visits(Seq::empty(), offered_around(cycle, cycle.len())) == cycle,
        first_visits(cycle, again) == cycle,
{
    lemma_visits_around(cycle, cycle.len());
    lemma_visited_maps_are_skipped(cycle, again);
}

/// The map that follows map number `i` of `cycle`; the first follows the
/// last.
pub open spec fn next_in(cycle: Seq<MapId>, i: int) -> MapId {
    if i + 1 == cycle.len() {
        cycle[0]
    } else {
        cycle[i + 1]
    }
}

/// Whether `cycle` is a cycle of portals in `maps`: the maps of the cycle
/// are registered and distinct, and each has exactly one portal, which leads
/// to the map that follows it.
pub open spec fn holds_cycle(maps: RegistryModel, cycle: Seq<MapId>) -> bool {
    &&& cycle.len() > 0
    &&& cycle.no_duplicates()
    &&& forall|i: int| 0 <= i < cycle.len() ==> maps.contains(#[trigger] cycle[i])
    &&& forall|i: int|
        0 <= i < cycle.len() ==> #[trigger] maps.portal_targets(cycle[i]) == seq![
            next_in(cycle, i),
        ]
}

/// Whether generators of the kind `TDunGen` leave the portal graph as it
/// is: whatever one application to a registered map does, every map that
/// was registered leads where it led.
pub open spec fn keeps_portal_targets<TDunGen: DoesDunGen>() -> bool {
    forall|
        generator: TDunGen,
        after: TDunGen,
        before: RegistryModel,
        map_id: MapId,
        maps: RegistryModel,
        other: MapId,
    |
        #![trigger generator.effect(&after, before, map_id, maps), maps.portal_targets(other)]
        generator.effect(&after, before, map_id, maps) && before.contains(map_id)
            && before.contains(other) ==> maps.portal_targets(other) == before.portal_targets(
            other,
        )
}

/// Offering maps in two rounds is offering them in one.
pub proof fn lemma_first_visits_in_rounds(
    visited: Seq<MapId>,
    first: Seq<MapId>,
    second: Seq<MapId>,
)
    ensures
        first_visits(first_visits(visited, first), second) == first_visits(visited, first + second),
    decreases second.len(),
{
    if second.len() == 0 {
        assert(first + second =~= first);
    } else {
        lemma_first_visits_in_rounds(visited, first, second.drop_last());
        assert((first + second).drop_last() =~= first + second.drop_last());
        assert((first + second).last() == second.last());
    }
}

/// A guard around a generator that leaves the portal graph as it is leaves
/// it as it is: after any number of the applications of a run, every map
/// that was registered at the start is registered and leads where it led.
pub proof fn lemma_guarded_run_keeps_targets<TDunGen: DoesDunGen>(
    generators: Seq<VisitMapOnceGenerator<TDunGen>>,
    registries: Seq<RegistryModel>,
    map_ids: Seq<MapId>,
    upto: int,
)
    requires
        keeps_portal_targets::<TDunGen>(),
        applied_in_turn(generators, registries, map_ids),
        0 <= upto <= map_ids.len(),
    ensures
        registries[0].len() <= registries[upto].len(),
        forall|other: MapId|
            registries[0].contains(other) ==> #[trigger] registries[upto].portal_targets(other)
                == registries[0].portal_targets(other),
    decreases upto,
{
    let start = registries[0];
    let now = registries[upto];
    if upto > 0 {
        let step = upto - 1;
        lemma_guarded_run_keeps_targets(generators, registries, map_ids, step);
        assert(is_application(generators, registries, map_ids, step));
        let earlier = registries[step];
        assert(now == registries[step + 1]);
        let guard = generators[step];
        let guard_after = generators[step + 1];
        let map_id = map_ids[step];
        assert(guard.effect(&guard_after, earlier, map_id, now));
        assert forall|other: MapId| start.contains(other) implies #[trigger] now.portal_targets(
            other,
        ) == start.portal_targets(other) by {
            assert(earlier.contains(other));
            assert(earlier.portal_targets(other) == start.portal_targets(other));
            if !guard.visited().contains(map_id) {
                assert(guard.inner().effect(&guard_after.inner(), earlier, map_id, now));
                assert(now.portal_targets(other) == earlier.portal_targets(other));
            }
        }
    }
}

/// What applying a guarded generator to the first `upto` maps of a cycle,
/// and to the maps behind their portals, comes to: the registry still holds
/// the cycle, and the guard has visited what one pass that far offers.
proof fn lemma_cycle_traversal_so_far<TDunGen: DoesDunGen>(
    traversals: Seq<TraverseThisAndPortalsGenerator<VisitMapOnceGenerator<TDunGen>>>,
    registries: Seq<RegistryModel>,
    cycle: Seq<MapId>,
    upto: nat,
)
    requires
        keeps_portal_targets::<TDunGen>(),
        holds_cycle(registries[0], cycle),
        applied_in_turn(traversals, registries, cycle),
        traversals[0].inner().visited() == Seq::<MapId>::empty(),
        upto <= cycle.len(),
    ensures
        holds_cycle(registries[upto as int], cycle),
        traversals[upto as int].inner().visited() == first_visits(
            Seq::empty(),
            offered_around(cycle, upto),
        ),
    decreases upto,
{
    if upto > 0 {
        let step = upto - 1;
        lemma_cycle_traversal_so_far(traversals, registries, cycle, step as nat);
        assert(is_application(traversals, registries, cycle, step));
        let traversal = traversals[step];
        let after = traversals[step + 1];
        let before = registries[step];
        let maps = registries[step + 1];
        let map_id = cycle[step];
        assert(traversal.effect(&after, before, map_id, maps));
        let (generators, inner_registries) = choose|
            generators: Seq<VisitMapOnceGenerator<TDunGen>>,
            inner_registries: Seq<RegistryModel>,
        |
            {
                &&& #[trigger] applied_in_turn(
                    generators,
                    inner_registries,
                    seq![map_id] + inner_registries[1].portal_targets(map_id),
                )
                &&& generators.first() == traversal.inner()
                &&& generators.last() == after.inner()
                &&& inner_registries.first() == before
                &&& inner_registries.last() == maps
            };
        let offered = seq![map_id] + inner_registries[1].portal_targets(map_id);
        lemma_guarded_run_keeps_targets(generators, inner_registries, offered, 1);
        lemma_guarded_run_keeps_targets(
            generators,
            inner_registries,
            offered,
            offered.len() as int,
        );
        assert(before.portal_targets(map_id) == seq![next_in(cycle, step)]);
        assert(inner_registries[1].portal_targets(map_id) == before.portal_targets(map_id));
        assert(offered =~= seq![map_id, next_in(cycle, step)]);
        lemma_guard_records_first_visits(generators, inner_registries, offered);
        lemma_first_visits_in_rounds(
            Seq::empty(),
            offered_around(cycle, step as nat),
            offered,
        );
        assert(offered_around(cycle, upto) =~= offered_around(cycle, step as nat) + offered);
        assert(inner_registries[offered.len() as int] == maps);
        assert forall|i: int| 0 <= i < cycle.len() implies #[trigger] maps.portal_targets(
            cycle[i],
        ) == seq![next_in(cycle, i)] by {
            assert(before.contains(cycle[i]));
            assert(inner_registries[offered.len() as int].portal_targets(cycle[i])
                == before.portal_targets(cycle[i]));
        }
        assert forall|i: int| 0 <= i < cycle.len() implies maps.contains(#[trigger] cycle[i]) by {
            assert(before.contains(cycle[i]));
        }
        assert(maps == registries[upto as int]);
    }
}

/// Traversal of a cycle of portals visits each map once. Let a registry
/// hold a cycle of maps, each with one portal to the next and the last with
/// one to the first, and let a guarded generator that leaves the portal
/// graph as it is be applied, through a traversal of each map and the maps
/// behind its portals, to the maps of the cycle in turn, starting with a
/// guard that has not visited any map. Then the wrapped generator has run
/// exactly once on each map of the cycle, in the order of the cycle, and on
/// no other map; and the registry still holds the cycle.
pub proof fn lemma_cycle_traversal_visits_each_once<TDunGen: DoesDunGen>(
    traversals: Seq<TraverseThisAndPortalsGenerator<VisitMapOnceGenerator<TDunGen>>>,
    registries: Seq<RegistryModel>,
    cycle: Seq<MapId>,
)
    requires
        keeps_portal_targets::<TDunGen>(),
        holds_cycle(registries[0], cycle),
        applied_in_turn(traversals, registries, cycle),
        traversals[0].inner().visited() == Seq::<MapId>::empty(),
    ensures
        traversals.last().inner().visited() == cycle,
        holds_cycle(registries.last(), cycle),
{
    lemma_cycle_traversal_so_far(traversals, registries, cycle, cycle.len());
    lemma_cycle_is_visited_once(cycle, Seq::empty());
}

/// Going around a cycle again runs the wrapped generator on no map. Once a
/// guard has visited the maps of a cycle that a registry holds, applying it
/// to maps of the cycle, through a traversal of each map and the maps
/// behind its portals, changes neither the registry nor the wrapped
/// generator nor the visited maps.
pub proof fn lemma_cycle_traversal_again<TDunGen: DoesDunGen>(
    traversal: TraverseThisAndPortalsGenerator<VisitMapOnceGenerator<TDunGen>>,
    after: TraverseThisAndPortalsGenerator<VisitMapOnceGenerator<TDunGen>>,
    before: RegistryModel,
    maps: RegistryModel,
    cycle: Seq<MapId>,
    i: int,
)
    requires
        holds_cycle(before, cycle),
        0 <= i < cycle.len(),
        traversal.inner().visited() == cycle,
        traversal.effect(&after, before, cycle[i], maps),
    ensures
        maps == before,
        after.inner().visited() == cycle,
        after.inner().inner() == traversal.inner().inner(),
{
    let map_id = cycle[i];
    let (generators, registries) = choose|
        generators: Seq<VisitMapOnceGenerator<TDunGen>>,
        registries: Seq<RegistryModel>,
    |
        {
            &&& #[trigger] applied_in_turn(
                generators,
                registries,
                seq![map_id] + registries[1].portal_targets(map_id),
            )
            &&& generators.first() == traversal.inner()
            &&& generators.last() == after.inner()
            &&& registries.first() == before
            &&& registries.last() == maps
        };
    let offered = seq![map_id] + registries[1].portal_targets(map_id);
    assert(is_application(generators, registries, offered, 0));
    assert(cycle[i] == map_id);
    assert(generators[0].visited().contains(map_id));
    assert(registries[1] == before);
    assert(before.portal_targets(map_id) == seq![next_in(cycle, i)]);
    assert(offered =~= seq![map_id, next_in(cycle, i)]);
    assert(is_application(generators, registries, offered, 1));
    assert(generators[1].visited() == cycle);
    if i + 1 == cycle.len() {
        assert(cycle[0] == next_in(cycle, i));
    } else {
        assert(cycle[i + 1] == next_in(cycle, i));
    }
    assert(generators[1].visited().contains(offered[1]));
}

} // verus!
