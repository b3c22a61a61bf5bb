//! Gives one-way portals a portal that leads back.

use crate::dun_gen::DoesDunGen;
use crate::geometry::{CardinalDirection, Position, Size};
use crate::map::{lemma_with_tile_inside, MapId, Portal, TileType, MAX_EXTENT};
use crate::random::random_in_range;
use crate::registry::{lemma_with_map_wf, MapRegistry, RegistryModel};
use vstd::prelude::*;

verus! {

/// Whether a map of the given size is too small to hold a portal on its
/// rim: a rim tile that is no corner takes three tiles each way.
pub open spec fn is_degenerate(size: Size) -> bool {
    size.width < 3 || size.height < 3
}

/// Whether the target of `portal` has a portal that arrives where `portal`
/// sits.
pub open spec fn has_return_portal(maps: RegistryModel, portal: Portal) -> bool {
    exists|j: int|
        0 <= j < maps.map(portal.target).portals.len() && (#[trigger] maps.map(
            portal.target,
        ).portals[j]).position_on_target == portal.local_position
}

/// The length of the edge of a map on which the return portal for a portal
/// facing `facing` is placed.
pub open spec fn edge_extent(size: Size, facing: CardinalDirection) -> int {
    match facing {
        CardinalDirection::North | CardinalDirection::South => size.width as int,
        CardinalDirection::East | CardinalDirection::West => size.height as int,
    }
}

/// Whether `draw` names a tile of that edge that is no corner.
pub open spec fn is_edge_draw(size: Size, facing: CardinalDirection, draw: int) -> bool {
    1 <= draw < edge_extent(size, facing) - 1
}

/// Where on a map of the given size the return portal for a portal facing
/// `facing` is placed: `draw` tiles along the top edge for north, the east
/// edge for east, the bottom edge for south, and the west edge for west.
pub open spec fn return_position(size: Size, facing: CardinalDirection, draw: int) -> Position {
    match facing {
        CardinalDirection::North => Position { x: draw as i32, y: 0 },
        CardinalDirection::East => Position { x: (size.width - 1) as i32, y: draw as i32 },
        CardinalDirection::South => Position { x: draw as i32, y: (size.height - 1) as i32 },
        CardinalDirection::West => Position { x: 0, y: draw as i32 },
    }
}

/// The return portal for portal `index` of the map `map_id`: it sits on the
/// target at the drawn place, faces the opposite way, and leads back to
/// where the portal sits.
pub open spec fn return_portal(maps: RegistryModel, map_id: MapId, index: int, draw: int) -> Portal {
    let portal = maps.map(map_id).portals[index];
    Portal {
        local_position: return_position(maps.map(portal.target).size(), portal.facing, draw),
        facing: portal.facing.spec_opposite(),
        position_on_target: portal.local_position,
        target: map_id,
    }
}

/// The registry after portal `index` of the map `map_id` has been given its
/// return portal: the return portal is added to the target, and the portal
/// arrives where the return portal sits.
pub open spec fn with_return_portal(
    maps: RegistryModel,
    map_id: MapId,
    index: int,
    draw: int,
) -> RegistryModel {
    let portal = maps.map(map_id).portals[index];
    let back = return_portal(maps, map_id, index, draw);
    let linked = maps.with_map(portal.target, maps.map(portal.target).with_portal(back));
    linked.with_map(
        map_id,
        linked.map(map_id).with_position_on_target(index, back.local_position),
    )
}

/// The registry after the first `upto` portals of the map `map_id` have
/// been taken in turn, and whether the run stopped on the way. A portal
/// whose target is too small stops the run; a portal that has a return
/// portal is passed over; any other portal is given a return portal at the
/// place that its draw names.
pub open spec fn reciprocate_portals(
    before: RegistryModel,
    map_id: MapId,
    upto: nat,
    draws: Seq<int>,
) -> (RegistryModel, bool)
    decreases upto,
{
    if upto == 0 {
        (before, false)
    } else {
        let (earlier, stopped) = reciprocate_portals(before, map_id, (upto - 1) as nat, draws);
        let portal = earlier.map(map_id).portals[upto - 1];
        if stopped {
            (earlier, true)
        } else if is_degenerate(earlier.map(portal.target).size()) {
            (earlier, true)
        } else if has_return_portal(earlier, portal) {
            (earlier, false)
        } else {
            (with_return_portal(earlier, map_id, upto - 1, draws[upto - 1]), false)
        }
    }
}

/// Whether each of the first `upto` draws that is used names a tile of the
/// edge it is used for that is no corner.
pub open spec fn draws_fit(before: RegistryModel, map_id: MapId, upto: nat, draws: Seq<int>) -> bool
    decreases upto,
{
    if upto == 0 {
        true
    } else {
        let (earlier, stopped) = reciprocate_portals(before, map_id, (upto - 1) as nat, draws);
        let portal = earlier.map(map_id).portals[upto - 1];
        &&& draws_fit(before, map_id, (upto - 1) as nat, draws)
        &&& (!stopped && !is_degenerate(earlier.map(portal.target).size()) && !has_return_portal(
            earlier,
            portal,
        )) ==> is_edge_draw(earlier.map(portal.target).size(), portal.facing, draws[upto - 1])
    }
}

/// Computes `return_position`; `None` exactly when the map is too small or
/// too large to have portals on its rim, or `draw` names no tile of the
/// edge that is no corner.
pub fn return_position_on_edge(size: Size, facing: CardinalDirection, draw: u32) -> (position:
    Option<Position>)
    ensures
        position.is_some() <==> !is_degenerate(size) && size.width <= MAX_EXTENT && size.height
            <= MAX_EXTENT && is_edge_draw(size, facing, draw as int),
        position.is_some() ==> position.unwrap() == return_position(size, facing, draw as int),
{
    if size.width < 3 || size.height < 3 || size.width > MAX_EXTENT || size.height > MAX_EXTENT
        || draw < 1 {
        return None;
    }
    match facing {
        CardinalDirection::North => {
            if draw < size.width - 1 {
                Some(Position { x: draw as i32, y: 0 })
            } else {
                None
            }
        },
        CardinalDirection::East => {
            if draw < size.height - 1 {
                Some(Position { x: (size.width - 1) as i32, y: draw as i32 })
            } else {
                None
            }
        },
        CardinalDirection::South => {
            if draw < size.width - 1 {
                Some(Position { x: draw as i32, y: (size.height - 1) as i32 })
            } else {
                None
            }
        },
        CardinalDirection::West => {
            if draw < size.height - 1 {
                Some(Position { x: 0, y: draw as i32 })
            } else {
                None
            }
        },
    }
}

/// Whether the target of `portal` has a portal that arrives where `portal`
/// sits.
pub fn find_return_portal(maps: &MapRegistry, portal: &Portal) -> (found: bool)
    requires
        maps.wf(),
        maps@.contains(portal.target),
    ensures
        found == has_return_portal(maps@, *portal),
{
    let others = maps.read(portal.target).portals();
    let mut j: usize = 0;
    while j < others.len()
        invariant
            j <= others@.len(),
            others@ == maps@.map(portal.target).portals,
            forall|k: int| 0 <= k < j ==> others@[k].position_on_target != portal.local_position,
        decreases others.len() - j,
    {
        if others[j].position_on_target == portal.local_position {
            return true;
        }
        j = j + 1;
    }
    false
}

/// Gives portal `index` of the map `map_id` a return portal at the place on
/// its target that `draw` names. Returns whether it did: nothing changes if
/// the target is too small or `draw` names no tile of the edge that is no
/// corner.
pub fn add_return_portal(maps: &mut MapRegistry, map_id: MapId, index: usize, draw: u32) -> (linked:
    bool)
    requires
        old(maps).wf(),
        old(maps)@.contains(map_id),
        index < old(maps)@.map(map_id).portals.len(),
    ensures
        final(maps).wf(),
        final(maps)@.extends(old(maps)@),
        final(maps)@.len() == old(maps)@.len(),
        ({
            let portal = old(maps)@.map(map_id).portals[index as int];
            let size = old(maps)@.map(portal.target).size();
            linked == (!is_degenerate(size) && is_edge_draw(size, portal.facing, draw as int))
        }),
        linked ==> final(maps)@ == with_return_portal(old(maps)@, map_id, index as int, draw as int),
        !linked ==> final(maps)@ == old(maps)@,
{
    let portal: Portal = maps.read(map_id).portals()[index];
    assert(old(maps)@.map(map_id).refers_within(old(maps)@.len()));
    let size: Size = maps.read(portal.target).size();
    match return_position_on_edge(size, portal.facing, draw) {
        Some(position) => {
            let added: bool = maps.add_portal(
                portal.target,
                position,
                portal.facing.opposite(),
                portal.local_position,
                map_id,
            );
            assert(added);
            proof {
                lemma_with_map_wf(
                    old(maps)@,
                    portal.target,
                    old(maps)@.map(portal.target).with_portal(
                        return_portal(old(maps)@, map_id, index as int, draw as int),
                    ),
                );
            }
            let ghost linked = maps@;
            maps.set_portal_position_on_target(map_id, index, position);
            proof {
                lemma_with_map_wf(
                    linked,
                    map_id,
                    linked.map(map_id).with_position_on_target(index as int, position),
                );
            }
            true
        },
        None => false,
    }
}

/// Gives every portal of a map that lacks one a portal that leads back.
///
/// The portals of the map are taken in order. A portal has a return portal
/// if some portal of its target arrives where the portal sits. A portal
/// without one gets one: on the edge of the target that lies opposite to the
/// edge the portal sits on, at a tile drawn at random that is no corner;
/// the return portal faces the opposite way and arrives where the portal
/// sits, and the portal is made to arrive where the return portal sits.
/// A map narrower or lower than three tiles has no such tile: if the map
/// itself is that small nothing is done, and the run ends at the first
/// portal whose target is that small.
pub struct ReciprocatePortalsGenerator {}

impl ReciprocatePortalsGenerator {
    pub fn new() -> (generator: Self)
        ensures
            generator.wf(),
    {
        Self {  }
    }
}

impl DoesDunGen for ReciprocatePortalsGenerator {
    open spec fn wf(&self) -> bool {
        true
    }

    open spec fn effect(
        &self,
        after: &Self,
        before: RegistryModel,
        map_id: MapId,
        maps: RegistryModel,
    ) -> bool {
        let count = before.map(map_id).portals.len();
        if is_degenerate(before.map(map_id).size()) {
            maps == before
        } else {
            exists|draws: Seq<int>|
                {
                    &&& draws.len() == count
                    &&& draws_fit(before, map_id, count, draws)
                    &&& maps == (#[trigger] reciprocate_portals(before, map_id, count, draws)).0
                }
        }
    }

    fn dun_gen_map(&mut self, maps: &mut MapRegistry, map_id: MapId) {
        let size: Size = maps.read(map_id).size();
        if size.width < 3 || size.height < 3 {
            return ;
        }
        let count: usize = maps.read(map_id).portal_count();
        let ghost mut draws: Seq<int> = Seq::new(count as nat, |k: int| 0int);
        let mut i: usize = 0;
        let mut stopped: bool = false;
        while i < count && !stopped
            invariant
                old(maps).wf(),
                old(maps)@.contains(map_id),
                maps.wf(),
                maps@.extends(old(maps)@),
                maps@.len() == old(maps)@.len(),
                count == old(maps)@.map(map_id).portals.len(),
                count <= maps@.map(map_id).portals.len(),
                i <= count,
                draws.len() == count,
                draws_fit(old(maps)@, map_id, i as nat, draws),
                !stopped ==> reciprocate_portals(old(maps)@, map_id, i as nat, draws) == (
                    maps@,
                    false,
                ),
                stopped ==> reciprocate_portals(old(maps)@, map_id, count as nat, draws).0 == maps@
                    && draws_fit(old(maps)@, map_id, count as nat, draws),
            decreases count - i + if stopped { 0int } else { 1int },
        {
            let portal: Portal = maps.read(map_id).portals()[i];
            assert(maps@.map(map_id).refers_within(maps@.len()));
            let target_size: Size = maps.read(portal.target).size();
            if target_size.width < 3 || target_size.height < 3 {
                stopped = true;
                proof {
                    lemma_stopped_stays(old(maps)@, map_id, (i + 1) as nat, count as nat, draws);
                }
            } else {
                if !find_return_portal(maps, &portal) {
                    let extent: u32 = match portal.facing {
                        CardinalDirection::North | CardinalDirection::South => target_size.width,
                        CardinalDirection::East | CardinalDirection::West => target_size.height,
                    };
                    let draw: u32 = random_in_range(1, extent as u64 - 1) as u32;
                    proof {
                        let drawn = draws.update(i as int, draw as int);
                        lemma_draws_prefix(old(maps)@, map_id, i as nat, draws, drawn);
                        draws = drawn;
                    }
                    let linked: bool = add_return_portal(maps, map_id, i, draw);
                    assert(linked);
                }
                i = i + 1;
            }
        }
        proof {
            assert(reciprocate_portals(old(maps)@, map_id, count as nat, draws).0 == maps@);
        }
    }
}

/// The outcome for the first `upto` portals depends on the first `upto`
/// draws only.
pub proof fn lemma_draws_prefix(
    before: RegistryModel,
    map_id: MapId,
    upto: nat,
    draws: Seq<int>,
    other: Seq<int>,
)
    requires
        forall|k: int| 0 <= k < upto ==> draws[k] == other[k],
    ensures
        reciprocate_portals(before, map_id, upto, draws) == reciprocate_portals(
            before,
            map_id,
            upto,
            other,
        ),
        draws_fit(before, map_id, upto, draws) == draws_fit(before, map_id, upto, other),
    decreases upto,
{
    if upto > 0 {
        lemma_draws_prefix(before, map_id, (upto - 1) as nat, draws, other);
    }
}

/// Once a run has stopped, taking more portals changes nothing.
pub proof fn lemma_stopped_stays(
    before: RegistryModel,
    map_id: MapId,
    upto: nat,
    later: nat,
    draws: Seq<int>,
)
    requires
        upto <= later,
        reciprocate_portals(before, map_id, upto, draws).1,
        draws_fit(before, map_id, upto, draws),
    ensures
        reciprocate_portals(before, map_id, later, draws) == reciprocate_portals(
            before,
            map_id,
            upto,
            draws,
        ),
        draws_fit(before, map_id, later, draws),
    decreases later - upto,
{
    if upto < later {
        lemma_stopped_stays(before, map_id, upto, (later - 1) as nat, draws);
    }
}

/// What giving portal `index` of the map `map_id` a return portal changes,
/// when the portal leads to another map: the target gains the return
/// portal, the portal arrives where the return portal sits, and everything
/// else stays as it is.
pub proof fn lemma_with_return_portal(maps: RegistryModel, map_id: MapId, index: int, draw: int)
    requires
        maps.wf(),
        maps.contains(map_id),
        0 <= index < maps.map(map_id).portals.len(),
        maps.map(map_id).portals[index].target != map_id,
        !is_degenerate(maps.map(maps.map(map_id).portals[index].target).size()),
        is_edge_draw(
            maps.map(maps.map(map_id).portals[index].target).size(),
            maps.map(map_id).portals[index].facing,
            draw,
        ),
    ensures
        ({
            let portal = maps.map(map_id).portals[index];
            let back = return_portal(maps, map_id, index, draw);
            let after = with_return_portal(maps, map_id, index, draw);
            &&& after.wf()
            &&& after.len() == maps.len()
            &&& after.map(map_id).portals == maps.map(map_id).portals.update(
                index,
                Portal { position_on_target: back.local_position, ..portal },
            )
            &&& after.map(portal.target).portals == maps.map(portal.target).portals.push(back)
            &&& forall|other: MapId|
                maps.contains(other) ==> (#[trigger] after.map(other)).size() == maps.map(
                    other,
                ).size()
            &&& forall|other: MapId|
                maps.contains(other) && other != map_id && other != portal.target ==> #[trigger] after.map(
                    other,
                ) == maps.map(other)
        }),
{
    let portal = maps.map(map_id).portals[index];
    let back = return_portal(maps, map_id, index, draw);
    assert(maps.map(map_id).refers_within(maps.len()));
    let target_map = maps.map(portal.target);
    assert(target_map.in_bounds(back.local_position));
    let linked_map = target_map.with_portal(back);
    lemma_with_tile_inside(target_map, back.local_position, TileType::Portal);
    lemma_with_map_wf(maps, portal.target, linked_map);
    let linked = maps.with_map(portal.target, linked_map);
    lemma_with_map_wf(
        linked,
        map_id,
        linked.map(map_id).with_position_on_target(index, back.local_position),
    );
}

/// Round trip of one portal and its return portal. Let `P` be a portal of
/// the map `A` that sits at `p` and leads to another map `B`, and let no
/// portal of `B` arrive at `p`. After `P` has been given a return portal,
/// `B` has exactly one portal `Q` that arrives at `p`; it is the last
/// portal of `B`, it leads to `A`, and `P` arrives where `Q` sits. Both
/// portals then have a return portal.
pub proof fn lemma_return_portal_round_trip(maps: RegistryModel, map_id: MapId, index: int, draw: int)
    requires
        maps.wf(),
        maps.contains(map_id),
        0 <= index < maps.map(map_id).portals.len(),
        maps.map(map_id).portals[index].target != map_id,
        !is_degenerate(maps.map(maps.map(map_id).portals[index].target).size()),
        is_edge_draw(
            maps.map(maps.map(map_id).portals[index].target).size(),
            maps.map(map_id).portals[index].facing,
            draw,
        ),
        !has_return_portal(maps, maps.map(map_id).portals[index]),
    ensures
        ({
            let before = maps.map(map_id).portals[index];
            let after = with_return_portal(maps, map_id, index, draw);
            let portal = after.map(map_id).portals[index];
            let arrivals = after.map(before.target).portals;
            let back = arrivals.last();
            &&& portal.local_position == before.local_position
            &&& portal.facing == before.facing
            &&& portal.target == before.target
            &&& arrivals.len() == maps.map(before.target).portals.len() + 1
            &&& back.target == map_id
            &&& back.facing == before.facing.spec_opposite()
            &&& back.position_on_target == portal.local_position
            &&& portal.position_on_target == back.local_position
            &&& forall|j: int|
                0 <= j < arrivals.len() && (#[trigger] arrivals[j]).position_on_target
                    == portal.local_position ==> j == arrivals.len() - 1
            &&& has_return_portal(after, portal)
            &&& has_return_portal(after, back)
        }),
{
    lemma_with_return_portal(maps, map_id, index, draw);
    let before = maps.map(map_id).portals[index];
    let after = with_return_portal(maps, map_id, index, draw);
    let portal = after.map(map_id).portals[index];
    let arrivals = after.map(before.target).portals;
    let back = arrivals.last();
    assert forall|j: int|
        0 <= j < arrivals.len() && (#[trigger] arrivals[j]).position_on_target
            == portal.local_position implies j == arrivals.len() - 1 by {
        if j < arrivals.len() - 1 {
            assert(arrivals[j] == maps.map(before.target).portals[j]);
        }
    }
    assert(after.map(portal.target).portals[arrivals.len() - 1].position_on_target
        == portal.local_position);
    assert(after.map(back.target).portals[index].position_on_target == back.local_position);
}

/// Whether a run passes over `portal`: its target is large enough and has a
/// portal that arrives where `portal` sits.
pub open spec fn is_linked(maps: RegistryModel, portal: Portal) -> bool {
    !is_degenerate(maps.map(portal.target).size()) && has_return_portal(maps, portal)
}

/// Whether a run over the portals of the map `map_id` has nothing left to
/// do: it passes over each of the first `matched` portals, and either these
/// are all `count` portals or the target of the next one is too small,
/// which ends the run there.
pub open spec fn is_settled(maps: RegistryModel, map_id: MapId, matched: int, count: int) -> bool {
    &&& 0 <= matched <= count
    &&& count == maps.map(map_id).portals.len()
    &&& forall|i: int| 0 <= i < matched ==> is_linked(maps, #[trigger] maps.map(map_id).portals[i])
    &&& matched < count ==> is_degenerate(
        maps.map(maps.map(map_id).portals[matched].target).size(),
    )
}

/// A run over a map that has nothing left to do changes nothing.
pub proof fn lemma_settled_run(
    maps: RegistryModel,
    map_id: MapId,
    matched: int,
    count: int,
    upto: nat,
    draws: Seq<int>,
)
    requires
        is_settled(maps, map_id, matched, count),
        upto <= count,
    ensures
        reciprocate_portals(maps, map_id, upto, draws) == (maps, upto > matched),
        draws_fit(maps, map_id, upto, draws),
    decreases upto,
{
    if upto > 0 {
        lemma_settled_run(maps, map_id, matched, count, (upto - 1) as nat, draws);
        if upto - 1 < matched {
            assert(is_linked(maps, maps.map(map_id).portals[upto - 1]));
        }
    }
}

/// What a run over the first `upto` portals of a map achieves, when none of
/// its portals leads back to the map itself: the registry stays well
/// formed, the map keeps its portals but for where they arrive, and either
/// a second run would pass over each of the first `upto` portals or the run
/// has stopped and has nothing left to do.
pub proof fn lemma_run_settles(before: RegistryModel, map_id: MapId, upto: nat, draws: Seq<int>) -> (matched:
    int)
    requires
        before.wf(),
        before.contains(map_id),
        upto <= before.map(map_id).portals.len(),
        forall|i: int|
            0 <= i < before.map(map_id).portals.len() ==> (#[trigger] before.map(
                map_id,
            ).portals[i]).target != map_id,
        draws_fit(before, map_id, upto, draws),
    ensures
        ({
            let (maps, stopped) = reciprocate_portals(before, map_id, upto, draws);
            let count = before.map(map_id).portals.len() as int;
            &&& maps.wf()
            &&& maps.len() == before.len()
            &&& maps.map(map_id).portals.len() == count
            &&& forall|i: int|
                0 <= i < count ==> (#[trigger] maps.map(map_id).portals[i]).target != map_id
            &&& stopped ==> is_settled(maps, map_id, matched, count) && matched < upto
            &&& !stopped ==> matched == upto && forall|i: int|
                0 <= i < upto ==> is_linked(maps, #[trigger] maps.map(map_id).portals[i])
        }),
    decreases upto,
{
    if upto == 0 {
        0
    } else {
        let earlier_matched = lemma_run_settles(before, map_id, (upto - 1) as nat, draws);
        let (earlier, stopped) = reciprocate_portals(before, map_id, (upto - 1) as nat, draws);
        let count = before.map(map_id).portals.len() as int;
        let portal = earlier.map(map_id).portals[upto - 1];
        if stopped {
            earlier_matched
        } else if is_degenerate(earlier.map(portal.target).size()) {
            upto - 1
        } else if has_return_portal(earlier, portal) {
            upto as int
        } else {
            let draw = draws[upto - 1];
            let maps = with_return_portal(earlier, map_id, upto - 1, draw);
            lemma_with_return_portal(earlier, map_id, upto - 1, draw);
            assert(earlier.map(map_id).refers_within(earlier.len()));
            assert forall|i: int| 0 <= i < upto implies is_linked(
                maps,
                #[trigger] maps.map(map_id).portals[i],
            ) by {
                let now = maps.map(map_id).portals[i];
                if i < upto - 1 {
                    let was = earlier.map(map_id).portals[i];
                    assert(is_linked(earlier, was));
                    let j = choose|j: int|
                        0 <= j < earlier.map(was.target).portals.len() && (#[trigger] earlier.map(
                            was.target,
                        ).portals[j]).position_on_target == was.local_position;
                    assert(earlier.contains(was.target));
                    if was.target == portal.target {
                        assert(maps.map(now.target).portals[j] == earlier.map(was.target).portals[j]);
                    } else {
                        assert(maps.map(now.target) == earlier.map(was.target));
                        assert(maps.map(now.target).portals[j] == earlier.map(was.target).portals[j]);
                    }
                } else {
                    let last = earlier.map(portal.target).portals.len() as int;
                    assert(maps.map(now.target).portals[last].position_on_target
                        == now.local_position);
                }
            }
            upto as int
        }
    }
}

/// Running reciprocation a second time is a no-op. After a run over a map
/// none of whose portals leads back to the map itself, every portal that
/// the run reached has a return portal, so a second run, whatever it draws,
/// leaves the registry as the first run left it.
pub proof fn lemma_reciprocation_is_idempotent(
    before: RegistryModel,
    map_id: MapId,
    draws: Seq<int>,
    again: Seq<int>,
)
    requires
        before.wf(),
        before.contains(map_id),
        forall|i: int|
            0 <= i < before.map(map_id).portals.len() ==> (#[trigger] before.map(
                map_id,
            ).portals[i]).target != map_id,
        draws_fit(before, map_id, before.map(map_id).portals.len(), draws),
    ensures
        ({
            let count = before.map(map_id).portals.len();
            let once = reciprocate_portals(before, map_id, count, draws).0;
            &&& once.map(map_id).portals.len() == count
            &&& reciprocate_portals(once, map_id, count, again).0 == once
            &&& draws_fit(once, map_id, count, again)
        }),
{
    let count = before.map(map_id).portals.len();
    let matched = lemma_run_settles(before, map_id, count, draws);
    let once = reciprocate_portals(before, map_id, count, draws).0;
    assert(is_settled(once, map_id, matched, count as int));
    lemma_settled_run(once, map_id, matched, count as int, count, again);
}

/// Whether portal `index` of the map `map_id` is a one-way portal that a
/// run over the map reaches and links on its own: the portals of the map
/// lead to other maps, none of them too small; no portal of the target
/// arrives where the portal sits; and no other portal of the map sits at the
/// same place and leads to the same map.
pub open spec fn is_one_way(maps: RegistryModel, map_id: MapId, index: int) -> bool {
    let portals = maps.map(map_id).portals;
    &&& 0 <= index < portals.len()
    &&& forall|i: int|
        0 <= i < portals.len() ==> (#[trigger] portals[i]).target != map_id && !is_degenerate(
            maps.map(portals[i].target).size(),
        )
    &&& !has_return_portal(maps, portals[index])
    &&& forall|i: int|
        0 <= i < portals.len() && i != index ==> !((#[trigger] portals[i]).target
            == portals[index].target && portals[i].local_position == portals[index].local_position)
}

/// Whether portal `q` of the target of portal `index` of the map `map_id`
/// is the one return portal of that portal: it arrives where the portal
/// sits and leads back to the map, the portal arrives where it sits, and no
/// other portal of the target arrives where the portal sits.
pub open spec fn is_only_return_portal(
    maps: RegistryModel,
    map_id: MapId,
    index: int,
    q: int,
) -> bool {
    let portal = maps.map(map_id).portals[index];
    let arrivals = maps.map(portal.target).portals;
    &&& 0 <= q < arrivals.len()
    &&& arrivals[q].position_on_target == portal.local_position
    &&& arrivals[q].target == map_id
    &&& portal.position_on_target == arrivals[q].local_position
    &&& forall|j: int|
        0 <= j < arrivals.len() && (#[trigger] arrivals[j]).position_on_target
            == portal.local_position ==> j == q
}

/// Whether the portals of the map `map_id` are in `maps` what they are in
/// `before`, but for where they arrive.
pub open spec fn keeps_portals(before: RegistryModel, map_id: MapId, maps: RegistryModel) -> bool {
    &&& maps.map(map_id).portals.len() == before.map(map_id).portals.len()
    &&& forall|i: int|
        0 <= i < before.map(map_id).portals.len() ==> {
            &&& (#[trigger] maps.map(map_id).portals[i]).local_position == before.map(
                map_id,
            ).portals[i].local_position
            &&& maps.map(map_id).portals[i].facing == before.map(map_id).portals[i].facing
            &&& maps.map(map_id).portals[i].target == before.map(map_id).portals[i].target
        }
}

/// Where a run over the first `upto` portals of a map leaves a one-way
/// portal: the run does not stop; before it reaches the portal, the portal
/// is still one-way; once it has reached the portal, the portal has its one
/// return portal, and keeps it.
proof fn lemma_run_links(
    before: RegistryModel,
    map_id: MapId,
    index: int,
    upto: nat,
    draws: Seq<int>,
) -> (q: int)
    requires
        before.wf(),
        before.contains(map_id),
        is_one_way(before, map_id, index),
        upto <= before.map(map_id).portals.len(),
        draws_fit(before, map_id, upto, draws),
    ensures
        ({
            let (maps, stopped) = reciprocate_portals(before, map_id, upto, draws);
            let target = before.map(map_id).portals[index].target;
            let alone = forall|i: int|
                0 <= i < before.map(map_id).portals.len() && i != index ==> (#[trigger] before.map(
                    map_id,
                ).portals[i]).target != target;
            &&& !stopped
            &&& maps.wf()
            &&& maps.len() == before.len()
            &&& keeps_portals(before, map_id, maps)
            &&& forall|other: MapId|
                before.contains(other) ==> (#[trigger] maps.map(other)).size() == before.map(
                    other,
                ).size()
            &&& upto <= index ==> !has_return_portal(maps, maps.map(map_id).portals[index])
                && maps.map(target).portals.len() >= before.map(target).portals.len()
                && (alone ==> maps.map(target).portals.len() == before.map(target).portals.len())
            &&& upto > index ==> is_only_return_portal(maps, map_id, index, q) && (alone
                ==> maps.map(target).portals.len() == before.map(target).portals.len() + 1)
        }),
    decreases upto,
{
    let was = before.map(map_id).portals[index];
    let target = was.target;
    let place = was.local_position;
    if upto == 0 {
        0
    } else {
        let step = upto - 1;
        let earlier_q = lemma_run_links(before, map_id, index, step as nat, draws);
        let earlier = reciprocate_portals(before, map_id, step as nat, draws).0;
        let here = earlier.map(map_id).portals[step];
        assert(here.target == before.map(map_id).portals[step].target);
        assert(before.map(map_id).refers_within(before.len()));
        assert(before.contains(here.target));
        assert(earlier.map(here.target).size() == before.map(here.target).size());
        assert(before.contains(target));
        if has_return_portal(earlier, here) {
            earlier_q
        } else {
            let draw = draws[step];
            let maps = with_return_portal(earlier, map_id, step, draw);
            let back = return_portal(earlier, map_id, step, draw);
            lemma_with_return_portal(earlier, map_id, step, draw);
            assert(keeps_portals(before, map_id, maps)) by {
                assert forall|i: int| 0 <= i < before.map(map_id).portals.len() implies {
                    &&& (#[trigger] maps.map(map_id).portals[i]).local_position == before.map(
                        map_id,
                    ).portals[i].local_position
                    &&& maps.map(map_id).portals[i].facing == before.map(map_id).portals[i].facing
                    &&& maps.map(map_id).portals[i].target == before.map(map_id).portals[i].target
                } by {
                    assert(earlier.map(map_id).portals[i].target == before.map(
                        map_id,
                    ).portals[i].target);
                }
            }
            assert forall|other: MapId| before.contains(other) implies (#[trigger] maps.map(
                other,
            )).size() == before.map(other).size() by {
                assert(earlier.map(other).size() == before.map(other).size());
            }
            let now = maps.map(map_id).portals[index];
            let arrivals = maps.map(target).portals;
            let arrivals_earlier = earlier.map(target).portals;
            assert(earlier.map(map_id).portals[index].target == target);
            assert(earlier.map(map_id).portals[index].local_position == place);
            if step == index {
                let q = arrivals_earlier.len() as int;
                assert(arrivals == arrivals_earlier.push(back));
                assert forall|j: int|
                    0 <= j < arrivals.len() && (#[trigger] arrivals[j]).position_on_target
                        == place implies j == q by {
                    if j < q {
                        assert(arrivals_earlier[j] == arrivals[j]);
                        assert(earlier.map(here.target).portals[j].position_on_target == place);
                    }
                }
                assert(arrivals[q] == back);
                assert(is_only_return_portal(maps, map_id, index, q));
                q
            } else {
                assert(now == earlier.map(map_id).portals[index]);
                if here.target == target {
                    assert(before.map(map_id).portals[step].local_position != place);
                    assert(arrivals == arrivals_earlier.push(back));
                    assert(back.position_on_target != place);
                } else {
                    assert(maps.map(target) == earlier.map(target));
                }
                if step < index {
                    if has_return_portal(maps, now) {
                        let j = choose|j: int|
                            0 <= j < maps.map(now.target).portals.len() && (#[trigger] maps.map(
                                now.target,
                            ).portals[j]).position_on_target == now.local_position;
                        if j < arrivals_earlier.len() {
                            assert(earlier.map(target).portals[j] == arrivals[j]);
                            assert(has_return_portal(earlier, earlier.map(map_id).portals[index]));
                        }
                    }
                    earlier_q
                } else {
                    assert(is_only_return_portal(earlier, map_id, index, earlier_q));
                    assert(arrivals[earlier_q] == arrivals_earlier[earlier_q]);
                    assert forall|j: int|
                        0 <= j < arrivals.len() && (#[trigger] arrivals[j]).position_on_target
                            == place implies j == earlier_q by {
                        if j < arrivals_earlier.len() {
                            assert(arrivals_earlier[j] == arrivals[j]);
                        }
                    }
                    assert(is_only_return_portal(maps, map_id, index, earlier_q));
                    earlier_q
                }
            }
        }
    }
}

/// Round trip of reciprocation. Let `P` be a one-way portal of the map `A`
/// that sits at `p` and leads to the map `B`, where the portals of `A` lead
/// to other maps, none of them too small, and no other portal of `A` sits at
/// `p` and leads to `B`. After reciprocation has been applied to `A`,
/// whatever it drew, `B` has exactly one portal `Q` that arrives at `p`; `Q`
/// leads to `A`, and `P` arrives where `Q` sits. If `P` is the only portal
/// of `A` that leads to `B`, then `B` has gained that one portal and no
/// other.
pub proof fn lemma_reciprocation_round_trip(
    generator: ReciprocatePortalsGenerator,
    after: ReciprocatePortalsGenerator,
    before: RegistryModel,
    map_id: MapId,
    maps: RegistryModel,
    index: int,
) -> (q: int)
    requires
        before.wf(),
        before.contains(map_id),
        !is_degenerate(before.map(map_id).size()),
        is_one_way(before, map_id, index),
        generator.effect(&after, before, map_id, maps),
    ensures
        keeps_portals(before, map_id, maps),
        is_only_return_portal(maps, map_id, index, q),
        (forall|i: int|
            0 <= i < before.map(map_id).portals.len() && i != index ==> (#[trigger] before.map(
                map_id,
            ).portals[i]).target != before.map(map_id).portals[index].target) ==> maps.map(
            before.map(map_id).portals[index].target,
        ).portals.len() == before.map(before.map(map_id).portals[index].target).portals.len() + 1,
{
    let count = before.map(map_id).portals.len();
    let draws = choose|draws: Seq<int>|
        {
            &&& draws.len() == count
            &&& draws_fit(before, map_id, count, draws)
            &&& maps == (#[trigger] reciprocate_portals(before, map_id, count, draws)).0
        };
    lemma_run_links(before, map_id, index, count, draws)
}

} // verus!
