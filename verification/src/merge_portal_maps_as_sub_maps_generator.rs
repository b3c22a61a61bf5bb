//! Folds the maps reachable through portals into the coordinate space of a
//! root map, as embedded maps.

use crate::dun_gen::DoesDunGen;
use crate::geometry::Position;
use crate::map::{contains_id, MapId, Portal, SubMapRef};
use crate::registry::{lemma_with_map_wf, MapRegistry, RegistryModel};
use vstd::prelude::*;

verus! {

/// Whether a map reached through `portal` from a map embedded at `base` can
/// be embedded: the offset `base + local_position - position_on_target` has
/// to be representable.
pub open spec fn embedding_fits(base: Position, portal: Portal) -> bool {
    &&& i32::MIN <= base.x + portal.local_position.x - portal.position_on_target.x <= i32::MAX
    &&& i32::MIN <= base.y + portal.local_position.y - portal.position_on_target.y <= i32::MAX
}

/// Where a map reached through `portal` from a map embedded at `base` is
/// embedded: at `base + local_position - position_on_target`, so that the
/// arrival position on the target coincides with the portal tile.
pub open spec fn embedding_at(base: Position, portal: Portal) -> Position {
    Position {
        x: (base.x + portal.local_position.x - portal.position_on_target.x) as i32,
        y: (base.y + portal.local_position.y - portal.position_on_target.y) as i32,
    }
}

/// Computes `embedding_at`; `None` exactly when the offset is not
/// representable.
pub fn checked_embedding(base: Position, portal: &Portal) -> (offset: Option<Position>)
    ensures
        offset.is_some() <==> embedding_fits(base, *portal),
        offset.is_some() ==> offset.unwrap() == embedding_at(base, *portal),
{
    let x: i64 = base.x as i64 + portal.local_position.x as i64 - portal.position_on_target.x as i64;
    let y: i64 = base.y as i64 + portal.local_position.y as i64 - portal.position_on_target.y as i64;
    if x < -2147483648 || x > 2147483647 || y < -2147483648 || y > 2147483647 {
        None
    } else {
        Some(Position { x: x as i32, y: y as i32 })
    }
}

/// The maps that the given embeddings embed, in order.
pub open spec fn targets_of(sub_maps: Seq<SubMapRef>) -> Seq<MapId> {
    Seq::new(sub_maps.len(), |k: int| sub_maps[k].target)
}

/// The given embeddings as work still to be done, each with `remaining`
/// further hops allowed.
pub open spec fn pending_from(sub_maps: Seq<SubMapRef>, remaining: usize) -> Seq<
    (SubMapRef, usize),
> {
    Seq::new(sub_maps.len(), |k: int| (sub_maps[k], remaining))
}

/// Whether the map behind `portal` is to be embedded: the filter accepts the
/// portal, the map has not been visited, and its offset is representable.
pub open spec fn qualifies(
    portal: Portal,
    base: Position,
    visited: Seq<MapId>,
    accepts: spec_fn(Portal) -> bool,
) -> bool {
    accepts(portal) && !visited.contains(portal.target) && embedding_fits(base, portal)
}

/// The embeddings that one pass over `portals` yields for a map embedded at
/// `base`. The portals are taken in order, and a map embedded for an earlier
/// portal counts as visited for the later ones.
pub open spec fn scan_portals(
    portals: Seq<Portal>,
    base: Position,
    visited: Seq<MapId>,
    accepts: spec_fn(Portal) -> bool,
) -> Seq<SubMapRef>
    decreases portals.len(),
{
    if portals.len() == 0 {
        Seq::empty()
    } else {
        let earlier = scan_portals(portals.drop_last(), base, visited, accepts);
        let portal = portals.last();
        if qualifies(portal, base, visited + targets_of(earlier), accepts) {
            earlier.push(SubMapRef { offset: embedding_at(base, portal), target: portal.target })
        } else {
            earlier
        }
    }
}

/// Whether the handle with the given index occurs in `visited`.
pub open spec fn is_visited(visited: Seq<MapId>, index: int) -> bool {
    exists|k: int| 0 <= k < visited.len() && (#[trigger] visited[k]).index == index
}

/// How many of the first `n` handles do not occur in `visited`.
pub open spec fn unvisited(n: nat, visited: Seq<MapId>) -> nat
    decreases n,
{
    if n == 0 {
        0
    } else {
        unvisited((n - 1) as nat, visited) + if is_visited(visited, n - 1) {
            0nat
        } else {
            1nat
        }
    }
}

/// The embeddings that working off `queue` yields, breadth first. Each
/// entry of the queue is an embedded map together with the number of hops
/// that may still be taken from it; `steps` bounds the number of entries
/// worked off.
pub open spec fn merge_steps(
    maps: RegistryModel,
    queue: Seq<(SubMapRef, usize)>,
    visited: Seq<MapId>,
    accepts: spec_fn(Portal) -> bool,
    steps: nat,
) -> Seq<SubMapRef>
    decreases steps,
{
    if steps == 0 || queue.len() == 0 {
        Seq::empty()
    } else {
        let (at, remaining) = queue.first();
        let found = if remaining == 0 {
            Seq::empty()
        } else {
            scan_portals(maps.map(at.target).portals, at.offset, visited, accepts)
        };
        found + merge_steps(
            maps,
            queue.drop_first() + pending_from(found, (remaining - 1) as usize),
            visited + targets_of(found),
            accepts,
            (steps - 1) as nat,
        )
    }
}

/// The embeddings that merging from `root` yields: the maps reachable from
/// `root` over at most `depth` accepted portals, breadth first, each map
/// once and none of those in `visited`. Every map that is worked off has
/// been marked as visited before, so one step per unvisited map, and one
/// for the root, is enough to empty the queue.
pub open spec fn merge_plan(
    maps: RegistryModel,
    root: MapId,
    depth: usize,
    visited: Seq<MapId>,
    accepts: spec_fn(Portal) -> bool,
) -> Seq<SubMapRef> {
    merge_steps(
        maps,
        seq![(SubMapRef { offset: Position { x: 0, y: 0 }, target: root }, depth)],
        visited.push(root),
        accepts,
        unvisited(maps.len(), visited.push(root)) + 1,
    )
}

/// Marking a map as visited leaves the handles with other indices as they
/// were.
proof fn lemma_is_visited_push(visited: Seq<MapId>, id: MapId, index: int)
    ensures
        is_visited(visited.push(id), index) <==> (is_visited(visited, index) || id.index == index),
{
    let longer = visited.push(id);
    if is_visited(visited, index) {
        let k = choose|k: int| 0 <= k < visited.len() && (#[trigger] visited[k]).index == index;
        assert(longer[k].index == index);
    }
    if id.index == index {
        assert(longer[visited.len() as int].index == index);
    }
    if is_visited(longer, index) {
        let k = choose|k: int| 0 <= k < longer.len() && (#[trigger] longer[k]).index == index;
        if k < visited.len() {
            assert(visited[k].index == index);
        }
    }
}

/// Marking a map beyond the first `n` handles as visited does not change
/// how many of those are unvisited.
pub proof fn lemma_unvisited_skip(n: nat, visited: Seq<MapId>, id: MapId)
    requires
        id.index >= n,
    ensures
        unvisited(n, visited.push(id)) == unvisited(n, visited),
    decreases n,
{
    if n > 0 {
        lemma_is_visited_push(visited, id, n - 1);
        lemma_unvisited_skip((n - 1) as nat, visited, id);
    }
}

/// Marking a registered, unvisited map as visited lowers the number of
/// unvisited maps by one.
pub proof fn lemma_unvisited_push(n: nat, visited: Seq<MapId>, id: MapId)
    requires
        id.index < n,
        !visited.contains(id),
    ensures
        unvisited(n, visited.push(id)) + 1 == unvisited(n, visited),
    decreases n,
{
    lemma_is_visited_push(visited, id, n - 1);
    if id.index == n - 1 {
        if is_visited(visited, n - 1) {
            let k = choose|k: int| 0 <= k < visited.len() && (#[trigger] visited[k]).index == n - 1;
            assert(visited[k] == id);
        }
        lemma_unvisited_skip((n - 1) as nat, visited, id);
    } else {
        lemma_unvisited_push((n - 1) as nat, visited, id);
    }
}

/// Whether `accepts` says what `portal_filter` answers: whatever the filter
/// answers for a portal is what `accepts` says of it.
pub open spec fn decides<TPortalFilter: Fn(&Portal) -> bool>(
    portal_filter: TPortalFilter,
    accepts: spec_fn(Portal) -> bool,
) -> bool {
    forall|portal: Portal, answer: bool| #[trigger]
        call_ensures(portal_filter, (&portal,), answer) ==> answer == accepts(portal)
}

/// Merges the maps that can be reached from a map through portals into
/// that map, as embedded maps.
///
/// From the map it is applied to, the generator follows the portals that the
/// filter accepts, up to `recursion_depth` hops and breadth first, and embeds
/// every map it reaches that it has not visited before. A map reached
/// through a portal is embedded so that the arrival position on it
/// coincides with the portal tile, and the offsets add up from hop to hop.
/// A portal whose target cannot be embedded at a representable offset is
/// passed over. The generator remembers the maps it has visited from one
/// application to the next.
pub struct MergePortalMapsAsSubMapsGenerator<TPortalFilter> where
    TPortalFilter: Fn(&Portal) -> bool,
 {
    portal_filter: TPortalFilter,
    recursion_depth: usize,
    visited: Vec<MapId>,
}

impl<TPortalFilter> MergePortalMapsAsSubMapsGenerator<TPortalFilter> where
    TPortalFilter: Fn(&Portal) -> bool,
 {
    /// Whether `portal_filter` can be called on every portal.
    pub open spec fn is_total(portal_filter: TPortalFilter) -> bool {
        forall|portal: Portal| #[trigger] call_requires(portal_filter, (&portal,))
    }

    pub closed spec fn portal_filter(&self) -> TPortalFilter {
        self.portal_filter
    }

    pub closed spec fn recursion_depth(&self) -> usize {
        self.recursion_depth
    }

    /// The maps visited so far, in the order of the visits. In a generator
    /// that is fit to be applied no map occurs twice.
    pub closed spec fn visited(&self) -> Seq<MapId> {
        self.visited@
    }

    /// Whether embedding `plan` in the map `map_id`, and marking that map
    /// and the embedded maps as visited, turns the registry `before` into
    /// `maps` and the generator into `after`.
    pub open spec fn embeds(
        &self,
        after: &Self,
        before: RegistryModel,
        map_id: MapId,
        maps: RegistryModel,
        plan: Seq<SubMapRef>,
    ) -> bool {
        &&& maps == before.with_map(map_id, before.map(map_id).with_sub_maps(plan))
        &&& after.visited() == self.visited().push(map_id) + targets_of(plan)
    }

    /// A generator that follows the portals that `portal_filter` accepts for
    /// up to `recursion_depth` hops, and has not visited any map yet.
    pub fn new(recursion_depth: usize, portal_filter: TPortalFilter) -> (generator: Self)
        requires
            Self::is_total(portal_filter),
        ensures
            generator.wf(),
            generator.portal_filter() == portal_filter,
            generator.recursion_depth() == recursion_depth,
            generator.visited() == Seq::<MapId>::empty(),
    {
        Self { portal_filter, recursion_depth, visited: Vec::new() }
    }

    /// The maps visited so far, in the order of the visits.
    pub fn visited_maps(&self) -> (visited: &Vec<MapId>)
        ensures
            visited@ == self.visited(),
    {
        &self.visited
    }
}

impl<TPortalFilter> DoesDunGen for MergePortalMapsAsSubMapsGenerator<TPortalFilter> where
    TPortalFilter: Fn(&Portal) -> bool,
 {
    open spec fn wf(&self) -> bool {
        Self::is_total(self.portal_filter()) && self.visited().no_duplicates()
    }

    /// A map that has been visited is left alone. Otherwise some plan is
    /// embedded, and it is the merge plan for whatever says what the filter
    /// answers.
    open spec fn effect(
        &self,
        after: &Self,
        before: RegistryModel,
        map_id: MapId,
        maps: RegistryModel,
    ) -> bool {
        &&& after.portal_filter() == self.portal_filter()
        &&& after.recursion_depth() == self.recursion_depth()
        &&& if self.visited().contains(map_id) {
            &&& maps == before
            &&& after.visited() == self.visited()
        } else {
            &&& exists|plan: Seq<SubMapRef>| #[trigger] self.embeds(after, before, map_id, maps, plan)
            &&& forall|accepts: spec_fn(Portal) -> bool| #[trigger]
                decides(self.portal_filter(), accepts) ==> self.embeds(
                    after,
                    before,
                    map_id,
                    maps,
                    merge_plan(before, map_id, self.recursion_depth(), self.visited(), accepts),
                )
        }
    }

    fn dun_gen_map(&mut self, maps: &mut MapRegistry, map_id: MapId) {
        if contains_id(&self.visited, map_id) {
            return ;
        }
        self.visited.push(map_id);
        let mut queue: Vec<(SubMapRef, usize)> = Vec::new();
        queue.push((SubMapRef { offset: Position::zero(), target: map_id }, self.recursion_depth));
        let mut head: usize = 0;
        let ghost filter = self.portal_filter;
        let ghost depth = self.recursion_depth;
        let ghost n = old(maps)@.len();
        let ghost mut done: Seq<SubMapRef> = Seq::empty();
        proof {
            assert(queue@.skip(0) =~= queue@);
            assert(self.visited@ + targets_of(done) =~= self.visited@);
            assert(old(maps)@.map(map_id).with_sub_maps(done).sub_maps =~= old(maps)@.map(
                map_id,
            ).sub_maps);
            assert(old(maps)@.with_map(map_id, old(maps)@.map(map_id)).slots =~= old(maps)@.slots);
            assert forall|accepts: spec_fn(Portal) -> bool| #[trigger]
                decides(filter, accepts) implies done + merge_steps(
                old(maps)@,
                queue@.skip(head as int),
                self.visited@,
                accepts,
                (unvisited(n, self.visited@) + queue@.len() - head) as nat,
            ) == merge_plan(old(maps)@, map_id, depth, old(self).visited(), accepts) by {
                let plan = merge_plan(old(maps)@, map_id, depth, old(self).visited(), accepts);
                assert(done + plan =~= plan);
            }
        }
        while head < queue.len()
            invariant
                self.wf(),
                self.portal_filter == filter,
                self.recursion_depth == depth,
                filter == old(self).portal_filter,
                depth == old(self).recursion_depth,
                old(maps).wf(),
                old(maps)@.contains(map_id),
                n == old(maps)@.len(),
                maps.wf(),
                head <= queue@.len(),
                forall|k: int|
                    0 <= k < queue@.len() ==> old(maps)@.contains((#[trigger] queue@[k]).0.target),
                maps@ == old(maps)@.with_map(map_id, old(maps)@.map(map_id).with_sub_maps(done)),
                self.visited@ == old(self).visited().push(map_id) + targets_of(done),
                forall|accepts: spec_fn(Portal) -> bool| #[trigger]
                    decides(filter, accepts) ==> done + merge_steps(
                        old(maps)@,
                        queue@.skip(head as int),
                        self.visited@,
                        accepts,
                        (unvisited(n, self.visited@) + queue@.len() - head) as nat,
                    ) == merge_plan(old(maps)@, map_id, depth, old(self).visited(), accepts),
            decreases unvisited(n, self.visited@) + queue@.len() - head,
        {
            let (at, remaining) = queue[head];
            let ghost pending = queue@.skip(head as int);
            let ghost visited_start = self.visited@;
            let ghost queue_start = queue@;
            let ghost mut found: Seq<SubMapRef> = Seq::empty();
            let ghost portals = old(maps)@.map(at.target).portals;
            proof {
                assert(pending.first() == (at, remaining));
                assert(queue@[head as int].0 == at);
                assert(portals.take(0) =~= Seq::<Portal>::empty());
                assert(visited_start + targets_of(found) =~= visited_start);
                assert(queue_start + pending_from(found, (remaining - 1) as usize) =~= queue_start);
                assert(done + found =~= done);
            }
            head = head + 1;
            if remaining > 0 {
                let portal_count: usize = maps.read(at.target).portal_count();
                let mut i: usize = 0;
                while i < portal_count
                    invariant
                        self.wf(),
                        self.portal_filter == filter,
                        self.recursion_depth == depth,
                        old(maps).wf(),
                        old(maps)@.contains(map_id),
                        old(maps)@.contains(at.target),
                        n == old(maps)@.len(),
                        maps.wf(),
                        remaining > 0,
                        portals == old(maps)@.map(at.target).portals,
                        portal_count == portals.len(),
                        i <= portal_count,
                        forall|k: int|
                            0 <= k < queue@.len() ==> old(maps)@.contains(
                                (#[trigger] queue@[k]).0.target,
                            ),
                        maps@ == old(maps)@.with_map(
                            map_id,
                            old(maps)@.map(map_id).with_sub_maps(done + found),
                        ),
                        forall|accepts: spec_fn(Portal) -> bool| #[trigger]
                            decides(filter, accepts) ==> found == scan_portals(
                                portals.take(i as int),
                                at.offset,
                                visited_start,
                                accepts,
                            ),
                        self.visited@ == visited_start + targets_of(found),
                        queue@ == queue_start + pending_from(found, (remaining - 1) as usize),
                        unvisited(n, self.visited@) + found.len() == unvisited(n, visited_start),
                    decreases portal_count - i,
                {
                    let portal: Portal = maps.read(at.target).portals()[i];
                    proof {
                        assert(portals.take(i + 1).drop_last() =~= portals.take(i as int));
                        assert(portals.take(i + 1).last() == portal);
                        assert(old(maps)@.map(at.target).refers_within(n));
                        assert(portal.target.index < n);
                    }
                    let accepted: bool = (self.portal_filter)(&portal);
                    let ghost found_before = found;
                    let ghost mut embedded = false;
                    if accepted && !contains_id(&self.visited, portal.target) {
                        match checked_embedding(at.offset, &portal) {
                            Some(offset) => {
                                let sub_map = SubMapRef { offset, target: portal.target };
                                proof {
                                    lemma_unvisited_push(n, self.visited@, portal.target);
                                    assert((visited_start + targets_of(found)).push(portal.target)
                                        =~= visited_start + targets_of(found.push(sub_map)));
                                    assert((queue_start + pending_from(
                                        found,
                                        (remaining - 1) as usize,
                                    )).push((sub_map, (remaining - 1) as usize)) =~= queue_start
                                        + pending_from(
                                        found.push(sub_map),
                                        (remaining - 1) as usize,
                                    ));
                                    assert(old(maps)@.map(map_id).with_sub_maps(
                                        done + found,
                                    ).with_sub_map(sub_map).sub_maps =~= old(maps)@.map(
                                        map_id,
                                    ).with_sub_maps(done + found.push(sub_map)).sub_maps);
                                    assert(old(maps)@.with_map(
                                        map_id,
                                        old(maps)@.map(map_id).with_sub_maps(done + found),
                                    ).with_map(
                                        map_id,
                                        old(maps)@.map(map_id).with_sub_maps(
                                            done + found.push(sub_map),
                                        ),
                                    ).slots =~= old(maps)@.with_map(
                                        map_id,
                                        old(maps)@.map(map_id).with_sub_maps(
                                            done + found.push(sub_map),
                                        ),
                                    ).slots);
                                    found = found.push(sub_map);
                                    embedded = true;
                                }
                                self.visited.push(portal.target);
                                maps.add_sub_map(map_id, offset, portal.target);
                                queue.push((sub_map, remaining - 1));
                            },
                            None => {},
                        }
                    }
                    proof {
                        assert forall|accepts: spec_fn(Portal) -> bool| #[trigger]
                            decides(filter, accepts) implies found == scan_portals(
                            portals.take(i + 1),
                            at.offset,
                            visited_start,
                            accepts,
                        ) by {
                            assert(call_ensures(filter, (&portal,), accepted));
                            assert(accepts(portal) == accepted);
                            assert(found_before == scan_portals(
                                portals.take(i as int),
                                at.offset,
                                visited_start,
                                accepts,
                            ));
                            assert(embedded == qualifies(
                                portal,
                                at.offset,
                                visited_start + targets_of(found_before),
                                accepts,
                            ));
                        }
                    }
                    i = i + 1;
                }
                proof {
                    assert(portals.take(portal_count as int) =~= portals);
                }
            }
            proof {
                let after_step = queue_start.skip(head as int) + pending_from(
                    found,
                    (remaining - 1) as usize,
                );
                assert(pending.drop_first() =~= queue_start.skip(head as int));
                assert(queue@.skip(head as int) =~= after_step);
                assert((old(self).visited().push(map_id) + targets_of(done)) + targets_of(found)
                    =~= old(self).visited().push(map_id) + targets_of(done + found));
                assert forall|accepts: spec_fn(Portal) -> bool| #[trigger]
                    decides(filter, accepts) implies (done + found) + merge_steps(
                    old(maps)@,
                    queue@.skip(head as int),
                    self.visited@,
                    accepts,
                    (unvisited(n, self.visited@) + queue@.len() - head) as nat,
                ) == merge_plan(old(maps)@, map_id, depth, old(self).visited(), accepts) by {
                    let rest = merge_steps(
                        old(maps)@,
                        after_step,
                        visited_start + targets_of(found),
                        accepts,
                        (unvisited(n, visited_start) + queue_start.len() - head) as nat,
                    );
                    assert(found == if remaining == 0 {
                        Seq::<SubMapRef>::empty()
                    } else {
                        scan_portals(portals, at.offset, visited_start, accepts)
                    });
                    assert(merge_steps(
                        old(maps)@,
                        pending,
                        visited_start,
                        accepts,
                        (unvisited(n, visited_start) + queue_start.len() - (head - 1)) as nat,
                    ) == found + rest);
                    assert(done + (found + rest) =~= (done + found) + rest);
                }
                done = done + found;
            }
        }
        proof {
            assert(queue@.skip(head as int) =~= Seq::<(SubMapRef, usize)>::empty());
            assert(old(self).embeds(self, old(maps)@, map_id, maps@, done));
            assert forall|accepts: spec_fn(Portal) -> bool| #[trigger]
                decides(filter, accepts) implies done == merge_plan(
                old(maps)@,
                map_id,
                depth,
                old(self).visited(),
                accepts,
            ) by {
                assert(done + Seq::<SubMapRef>::empty() =~= done);
            }
        }
    }
}

/// One hop of a path through the portal graph: portal number `portal` of
/// the map `from`.
pub struct Hop {
    pub from: MapId,
    pub portal: int,
}

/// The portal that `hop` goes through.
pub open spec fn hop_portal(maps: RegistryModel, hop: Hop) -> Portal {
    maps.map(hop.from).portals[hop.portal]
}

/// Whether `hops` lead from `root` to `to` through accepted portals: every
/// hop names an accepted portal of a registered map, the first hop starts at
/// `root`, each later one starts where the one before it leads, and the
/// last leads to `to`. No hops lead from `root` to itself.
pub open spec fn is_path(
    maps: RegistryModel,
    root: MapId,
    accepts: spec_fn(Portal) -> bool,
    hops: Seq<Hop>,
    to: MapId,
) -> bool
    decreases hops.len(),
{
    if hops.len() == 0 {
        root == to
    } else {
        let hop = hops.last();
        &&& is_path(maps, root, accepts, hops.drop_last(), hop.from)
        &&& maps.contains(hop.from)
        &&& 0 <= hop.portal < maps.map(hop.from).portals.len()
        &&& accepts(hop_portal(maps, hop))
        &&& hop_portal(maps, hop).target == to
    }
}

/// The sum, over the hops, of `local_position - position_on_target` of the
/// portal that the hop goes through.
pub open spec fn path_offset(maps: RegistryModel, hops: Seq<Hop>) -> (int, int)
    decreases hops.len(),
{
    if hops.len() == 0 {
        (0, 0)
    } else {
        let (x, y) = path_offset(maps, hops.drop_last());
        let portal = hop_portal(maps, hops.last());
        (
            x + portal.local_position.x - portal.position_on_target.x,
            y + portal.local_position.y - portal.position_on_target.y,
        )
    }
}

/// Whether `hops` account for the embedding `sub_map`: they lead from
/// `root` to the embedded map through accepted portals, and the offset of
/// the embedding is the sum of their offsets.
pub open spec fn accounts_for(
    maps: RegistryModel,
    root: MapId,
    accepts: spec_fn(Portal) -> bool,
    hops: Seq<Hop>,
    sub_map: SubMapRef,
) -> bool {
    &&& is_path(maps, root, accepts, hops, sub_map.target)
    &&& path_offset(maps, hops) == (sub_map.offset.x as int, sub_map.offset.y as int)
}

/// Every embedding that a pass over `portals` yields stems from one of the
/// portals, which qualified when its turn came.
proof fn lemma_scan_origin(
    portals: Seq<Portal>,
    base: Position,
    visited: Seq<MapId>,
    accepts: spec_fn(Portal) -> bool,
    k: int,
) -> (i: int)
    requires
        0 <= k < scan_portals(portals, base, visited, accepts).len(),
    ensures
        0 <= i < portals.len(),
        accepts(portals[i]),
        embedding_fits(base, portals[i]),
        !visited.contains(portals[i].target),
        scan_portals(portals, base, visited, accepts)[k] == (SubMapRef {
            offset: embedding_at(base, portals[i]),
            target: portals[i].target,
        }),
    decreases portals.len(),
{
    let earlier = scan_portals(portals.drop_last(), base, visited, accepts);
    let portal = portals.last();
    if qualifies(portal, base, visited + targets_of(earlier), accepts) && k == earlier.len() {
        if visited.contains(portal.target) {
            let j = choose|j: int| 0 <= j < visited.len() && visited[j] == portal.target;
            assert((visited + targets_of(earlier))[j] == portal.target);
        }
        portals.len() - 1
    } else {
        lemma_scan_origin(portals.drop_last(), base, visited, accepts, k)
    }
}

/// A path that accounts for an embedded map, extended by a hop through an
/// accepted portal of that map, accounts for the map behind that portal.
proof fn lemma_path_extends(
    maps: RegistryModel,
    root: MapId,
    accepts: spec_fn(Portal) -> bool,
    hops: Seq<Hop>,
    at: SubMapRef,
    i: int,
) -> (longer: Seq<Hop>)
    requires
        maps.contains(at.target),
        accounts_for(maps, root, accepts, hops, at),
        0 <= i < maps.map(at.target).portals.len(),
        accepts(maps.map(at.target).portals[i]),
        embedding_fits(at.offset, maps.map(at.target).portals[i]),
    ensures
        longer == hops.push(Hop { from: at.target, portal: i }),
        accounts_for(
            maps,
            root,
            accepts,
            longer,
            SubMapRef {
                offset: embedding_at(at.offset, maps.map(at.target).portals[i]),
                target: maps.map(at.target).portals[i].target,
            },
        ),
{
    let hop = Hop { from: at.target, portal: i };
    let longer = hops.push(hop);
    assert(longer.drop_last() =~= hops);
    assert(longer.last() == hop);
    longer
}

/// Whether some path accounts for the entry of a merge queue and leaves it
/// the hops it may still take.
spec fn is_accounted(
    maps: RegistryModel,
    root: MapId,
    depth: usize,
    accepts: spec_fn(Portal) -> bool,
    entry: (SubMapRef, usize),
) -> bool {
    &&& maps.contains(entry.0.target)
    &&& exists|hops: Seq<Hop>|
        #![trigger accounts_for(maps, root, accepts, hops, entry.0)]
        accounts_for(maps, root, accepts, hops, entry.0) && hops.len() + entry.1 == depth
}

/// If every entry of the queue is accounted for by a path that leaves it
/// the hops it may still take, so is every embedding that working off the
/// queue yields.
proof fn lemma_steps_follow_paths(
    maps: RegistryModel,
    root: MapId,
    depth: usize,
    queue: Seq<(SubMapRef, usize)>,
    visited: Seq<MapId>,
    accepts: spec_fn(Portal) -> bool,
    steps: nat,
    k: int,
) -> (hops: Seq<Hop>)
    requires
        maps.wf(),
        forall|j: int| 0 <= j < queue.len() ==> is_accounted(maps, root, depth, accepts, #[trigger] queue[j]),
        0 <= k < merge_steps(maps, queue, visited, accepts, steps).len(),
    ensures
        1 <= hops.len() <= depth,
        accounts_for(maps, root, accepts, hops, merge_steps(maps, queue, visited, accepts, steps)[k]),
    decreases steps,
{
    let (at, remaining) = queue.first();
    let portals = maps.map(at.target).portals;
    let found = if remaining == 0 {
        Seq::empty()
    } else {
        scan_portals(portals, at.offset, visited, accepts)
    };
    let rest = queue.drop_first() + pending_from(found, (remaining - 1) as usize);
    assert(is_accounted(maps, root, depth, accepts, queue[0]));
    let so_far = choose|hops: Seq<Hop>|
        #![trigger accounts_for(maps, root, accepts, hops, at)]
        accounts_for(maps, root, accepts, hops, at) && hops.len() + remaining == depth;
    assert(maps.map(at.target).refers_within(maps.len()));
    assert forall|j: int| 0 <= j < rest.len() implies is_accounted(
        maps,
        root,
        depth,
        accepts,
        #[trigger] rest[j],
    ) by {
        if j < queue.len() - 1 {
            assert(rest[j] == queue[j + 1]);
        } else {
            let f = j - (queue.len() - 1);
            assert(rest[j] == (found[f], (remaining - 1) as usize));
            let i = lemma_scan_origin(portals, at.offset, visited, accepts, f);
            let longer = lemma_path_extends(maps, root, accepts, so_far, at, i);
            assert(accounts_for(maps, root, accepts, longer, rest[j].0));
        }
    }
    if k < found.len() {
        let i = lemma_scan_origin(portals, at.offset, visited, accepts, k);
        lemma_path_extends(maps, root, accepts, so_far, at, i)
    } else {
        lemma_steps_follow_paths(
            maps,
            root,
            depth,
            rest,
            visited + targets_of(found),
            accepts,
            (steps - 1) as nat,
            k - found.len(),
        )
    }
}

/// The offset at which a merge embeds a map is the sum of the offsets of
/// the hops that lead to it: every embedding of the plan is accounted for by
/// a path of at least one and at most `depth` hops from the root through
/// accepted portals, and each hop through a portal adds that portal's
/// `local_position - position_on_target`.
pub proof fn lemma_merge_offsets_add_up(
    maps: RegistryModel,
    root: MapId,
    depth: usize,
    visited: Seq<MapId>,
    accepts: spec_fn(Portal) -> bool,
    k: int,
) -> (hops: Seq<Hop>)
    requires
        maps.wf(),
        maps.contains(root),
        0 <= k < merge_plan(maps, root, depth, visited, accepts).len(),
    ensures
        1 <= hops.len() <= depth,
        accounts_for(maps, root, accepts, hops, merge_plan(maps, root, depth, visited, accepts)[k]),
{
    let start = SubMapRef { offset: Position { x: 0, y: 0 }, target: root };
    let queue = seq![(start, depth)];
    assert(accounts_for(maps, root, accepts, Seq::<Hop>::empty(), queue[0].0));
    assert(is_accounted(maps, root, depth, accepts, queue[0]));
    lemma_steps_follow_paths(
        maps,
        root,
        depth,
        queue,
        visited.push(root),
        accepts,
        unvisited(maps.len(), visited.push(root)) + 1,
        k,
    )
}

/// Whether the embedding `sub_map` is the one that a merge makes for the
/// map behind `portal` of the root: the map is embedded at
/// `local_position - position_on_target`.
pub open spec fn embeds_behind(sub_map: SubMapRef, portal: Portal) -> bool {
    &&& portal.embedding_offset_fits()
    &&& sub_map.target == portal.target
    &&& sub_map.offset == portal.embedding_offset()
}

/// Whether the embedding `sub_map` is the one that a merge makes for the
/// map behind one of `portals` that the filter accepts.
pub open spec fn stems_from(
    sub_map: SubMapRef,
    portals: Seq<Portal>,
    accepts: spec_fn(Portal) -> bool,
) -> bool {
    exists|i: int|
        0 <= i < portals.len() && accepts(portals[i]) && #[trigger] embeds_behind(sub_map, portals[i])
}

/// A merge of at least one hop starts with the maps behind the portals of
/// the root: the plan begins with one embedding for each portal of the root
/// that qualifies, in the order of the portals. The map behind a portal with
/// `local_position` `(lx, ly)` and `position_on_target` `(tx, ty)` is
/// embedded at `(lx - tx, ly - ty)`.
pub proof fn lemma_merge_first_hop(
    maps: RegistryModel,
    root: MapId,
    depth: usize,
    visited: Seq<MapId>,
    accepts: spec_fn(Portal) -> bool,
)
    requires
        depth > 0,
    ensures
        ({
            let plan = merge_plan(maps, root, depth, visited, accepts);
            let first = scan_portals(
                maps.map(root).portals,
                Position { x: 0, y: 0 },
                visited.push(root),
                accepts,
            );
            &&& first.len() <= plan.len()
            &&& plan.subrange(0, first.len() as int) == first
            &&& forall|k: int|
                0 <= k < first.len() ==> stems_from(#[trigger] first[k], maps.map(root).portals, accepts)
        }),
{
    let plan = merge_plan(maps, root, depth, visited, accepts);
    let portals = maps.map(root).portals;
    let zero = Position { x: 0, y: 0 };
    let start = SubMapRef { offset: zero, target: root };
    let queue = seq![(start, depth)];
    let first = scan_portals(portals, zero, visited.push(root), accepts);
    assert(queue.first() == (start, depth));
    let steps = unvisited(maps.len(), visited.push(root)) + 1;
    let rest = merge_steps(
        maps,
        queue.drop_first() + pending_from(first, (depth - 1) as usize),
        visited.push(root) + targets_of(first),
        accepts,
        (steps - 1) as nat,
    );
    assert(plan == first + rest);
    assert(plan.subrange(0, first.len() as int) =~= first);
    assert forall|k: int| 0 <= k < first.len() implies stems_from(
        #[trigger] first[k],
        maps.map(root).portals,
        accepts,
    ) by {
        let i = lemma_scan_origin(portals, zero, visited.push(root), accepts, k);
        assert(embeds_behind(first[k], portals[i]));
    }
}

/// A queue whose entries may take no further hop yields no embedding.
proof fn lemma_spent_queue(
    maps: RegistryModel,
    queue: Seq<(SubMapRef, usize)>,
    visited: Seq<MapId>,
    accepts: spec_fn(Portal) -> bool,
    steps: nat,
)
    requires
        forall|k: int| 0 <= k < queue.len() ==> (#[trigger] queue[k]).1 == 0,
    ensures
        merge_steps(maps, queue, visited, accepts, steps) == Seq::<SubMapRef>::empty(),
    decreases steps,
{
    if steps > 0 && queue.len() > 0 {
        let found = Seq::<SubMapRef>::empty();
        let rest = queue.drop_first() + pending_from(found, 0);
        assert forall|k: int| 0 <= k < rest.len() implies (#[trigger] rest[k]).1 == 0 by {
            assert(rest[k] == queue[k + 1]);
        }
        lemma_spent_queue(maps, rest, visited + targets_of(found), accepts, (steps - 1) as nat);
        assert(found + Seq::<SubMapRef>::empty() =~= Seq::<SubMapRef>::empty());
    }
}

/// A merge of one hop embeds the maps behind the portals of the root and
/// no others: the plan is one pass over the portals of the root.
pub proof fn lemma_merge_one_hop(
    maps: RegistryModel,
    root: MapId,
    visited: Seq<MapId>,
    accepts: spec_fn(Portal) -> bool,
)
    ensures
        merge_plan(maps, root, 1, visited, accepts) == scan_portals(
            maps.map(root).portals,
            Position { x: 0, y: 0 },
            visited.push(root),
            accepts,
        ),
{
    let zero = Position { x: 0, y: 0 };
    let start = SubMapRef { offset: zero, target: root };
    let queue = seq![(start, 1usize)];
    let first = scan_portals(maps.map(root).portals, zero, visited.push(root), accepts);
    let steps = unvisited(maps.len(), visited.push(root)) + 1;
    let rest = queue.drop_first() + pending_from(first, 0);
    assert(queue.first() == (start, 1usize));
    lemma_spent_queue(
        maps,
        rest,
        visited.push(root) + targets_of(first),
        accepts,
        (steps - 1) as nat,
    );
    assert(first + Seq::<SubMapRef>::empty() =~= first);
}

/// A pass over a single portal embeds the map behind it if the portal
/// qualifies, and nothing otherwise.
pub proof fn lemma_scan_one_portal(
    portal: Portal,
    base: Position,
    visited: Seq<MapId>,
    accepts: spec_fn(Portal) -> bool,
)
    ensures
        scan_portals(seq![portal], base, visited, accepts) == if qualifies(
            portal,
            base,
            visited,
            accepts,
        ) {
            seq![SubMapRef { offset: embedding_at(base, portal), target: portal.target }]
        } else {
            Seq::<SubMapRef>::empty()
        },
{
    let portals = seq![portal];
    assert(portals.drop_last() =~= Seq::<Portal>::empty());
    let earlier = scan_portals(portals.drop_last(), base, visited, accepts);
    assert(earlier =~= Seq::<SubMapRef>::empty());
    assert(visited + targets_of(earlier) =~= visited);
    assert(earlier.push(SubMapRef { offset: embedding_at(base, portal), target: portal.target })
        =~= seq![SubMapRef { offset: embedding_at(base, portal), target: portal.target }]);
}

} // verus!
