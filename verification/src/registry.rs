//! The map registry: a grow-only arena that owns every map and hands out
//! handles to them.

use crate::geometry::{Area, CardinalDirection, Position};
use crate::map::{MapId, MapModel, Portal, SubMapRef, TileMap, TileType};
use vstd::prelude::*;

verus! {

/// The mathematical content of one entry of a registry.
pub struct SlotModel {
    pub map: MapModel,
    /// Whether the map has been discarded. A discarded map keeps its handle.
    pub invalidated: bool,
}

/// The mathematical content of a registry: its entries in the order of
/// insertion. The handle with index `i` names entry `i`.
pub struct RegistryModel {
    pub slots: Seq<SlotModel>,
}

impl RegistryModel {
    pub open spec fn len(self) -> nat {
        self.slots.len()
    }

    /// Whether `id` names an entry.
    pub open spec fn contains(self, id: MapId) -> bool {
        id.index < self.slots.len()
    }

    /// The map that `id` names.
    pub open spec fn map(self, id: MapId) -> MapModel {
        self.slots[id.index as int].map
    }

    pub open spec fn is_invalidated(self, id: MapId) -> bool {
        self.slots[id.index as int].invalidated
    }

    /// Every map is well formed, every portal and embedded map refers to an
    /// entry of this registry, and every entry has a handle.
    pub open spec fn wf(self) -> bool {
        &&& self.slots.len() <= usize::MAX
        &&& forall|i: int|
            0 <= i < self.slots.len() ==> {
                &&& (#[trigger] self.slots[i]).map.wf()
                &&& self.slots[i].map.refers_within(self.slots.len())
            }
    }

    /// The registry without entries.
    pub open spec fn empty() -> RegistryModel {
        RegistryModel { slots: Seq::empty() }
    }

    /// The registry in which `id` names `map` instead.
    pub open spec fn with_map(self, id: MapId, map: MapModel) -> RegistryModel {
        RegistryModel {
            slots: self.slots.update(id.index as int, SlotModel { map, ..self.slots[id.index as int] }),
        }
    }

    /// The registry after `map` has been inserted under the next handle.
    pub open spec fn inserted(self, map: MapModel) -> RegistryModel {
        RegistryModel { slots: self.slots.push(SlotModel { map, invalidated: false }) }
    }

    /// The handle that the next insertion hands out.
    pub open spec fn next_id(self) -> MapId {
        MapId { index: self.slots.len() as usize }
    }

    /// The registry after the map that `id` names has been discarded.
    pub open spec fn invalidated(self, id: MapId) -> RegistryModel {
        RegistryModel {
            slots: self.slots.update(
                id.index as int,
                SlotModel { invalidated: true, ..self.slots[id.index as int] },
            ),
        }
    }

    /// Whether this registry can have come about from `earlier`: a registry
    /// only grows, and a discarded map stays discarded.
    pub open spec fn extends(self, earlier: RegistryModel) -> bool {
        &&& earlier.slots.len() <= self.slots.len()
        &&& forall|i: int|
            0 <= i < earlier.slots.len() && (#[trigger] earlier.slots[i]).invalidated
                ==> self.slots[i].invalidated
    }

    /// The targets of the portals of the map that `id` names, in order.
    pub open spec fn portal_targets(self, id: MapId) -> Seq<MapId> {
        self.map(id).portal_targets()
    }
}

/// Replacing a map by a well-formed one that refers to registered maps only
/// keeps the registry well formed.
pub proof fn lemma_with_map_wf(maps: RegistryModel, id: MapId, map: MapModel)
    requires
        maps.wf(),
        maps.contains(id),
        map.wf(),
        map.refers_within(maps.len()),
    ensures
        maps.with_map(id, map).wf(),
        maps.with_map(id, map).extends(maps),
        maps.with_map(id, map).len() == maps.len(),
{
    let after = maps.with_map(id, map);
    assert forall|i: int| 0 <= i < after.slots.len() implies {
        &&& (#[trigger] after.slots[i]).map.wf()
        &&& after.slots[i].map.refers_within(after.slots.len())
    } by {
        if i != id.index {
            assert(after.slots[i] == maps.slots[i]);
        }
    }
}

/// What exclusive access to one map can do to a registry: if the map that
/// `id` names is all that differs between `before` and `after`, then `after`
/// is `before` with that map replaced, and it is well formed if the map is
/// well formed and refers to registered maps only.
pub proof fn lemma_written(before: RegistryModel, after: RegistryModel, id: MapId)
    requires
        before.wf(),
        before.contains(id),
        after.len() == before.len(),
        after.is_invalidated(id) == before.is_invalidated(id),
        forall|i: int|
            0 <= i < before.len() && i != id.index ==> #[trigger] after.slots[i] == before.slots[i],
    ensures
        after == before.with_map(id, after.map(id)),
        after.extends(before),
        after.map(id).wf() && after.map(id).refers_within(before.len()) ==> after.wf(),
{
    assert(after.slots =~= before.with_map(id, after.map(id)).slots);
    if after.map(id).wf() && after.map(id).refers_within(before.len()) {
        lemma_with_map_wf(before, id, after.map(id));
    }
}

/// A map with its bookkeeping.
#[derive(Debug)]
struct MapSlot {
    map: TileMap,
    invalidated: bool,
}

/// Owns the maps of a generation session. Maps are addressed by the handle
/// that `insert` returned for them; handles stay valid for the life of the
/// registry.
#[derive(Debug)]
pub struct MapRegistry {
    slots: Vec<MapSlot>,
}

impl View for MapRegistry {
    type V = RegistryModel;

    closed spec fn view(&self) -> RegistryModel {
        RegistryModel {
            slots: Seq::new(
                self.slots@.len(),
                |i: int| SlotModel { map: self.slots@[i].map@, invalidated: self.slots@[i].invalidated },
            ),
        }
    }
}

impl MapRegistry {
    pub open spec fn wf(&self) -> bool {
        self@.wf()
    }

    /// A registry without maps.
    pub fn new() -> (maps: MapRegistry)
        ensures
            maps.wf(),
            maps@ == RegistryModel::empty(),
    {
        let maps = MapRegistry { slots: Vec::new() };
        assert(maps@.slots =~= Seq::empty());
        maps
    }

    /// The number of maps ever inserted.
    pub fn len(&self) -> (n: usize)
        ensures
            n == self@.len(),
    {
        self.slots.len()
    }

    /// Whether `id` names a map of this registry.
    pub fn is_registered(&self, id: MapId) -> (registered: bool)
        ensures
            registered == self@.contains(id),
    {
        id.index < self.slots.len()
    }

    /// Takes ownership of `map` and returns the handle that names it from
    /// now on.
    pub fn insert(&mut self, map: TileMap) -> (id: MapId)
        requires
            old(self).wf(),
            map.wf(),
            map@.refers_within(old(self)@.len()),
        ensures
            final(self).wf(),
            final(self)@.extends(old(self)@),
            id == old(self)@.next_id(),
            final(self)@ == old(self)@.inserted(map@),
    {
        let id = MapId { index: self.slots.len() };
        self.slots.push(MapSlot { map, invalidated: false });
        proof {
            assert(self@.slots =~= old(self)@.inserted(map@).slots);
            assert(self.slots@.len() == self.slots.len());
            assert forall|i: int| 0 <= i < self@.slots.len() implies {
                &&& (#[trigger] self@.slots[i]).map.wf()
                &&& self@.slots[i].map.refers_within(self@.slots.len())
            } by {
                if i < old(self)@.slots.len() {
                    assert(self@.slots[i] == old(self)@.slots[i]);
                }
            }
        }
        id
    }

    /// Shared access to the map that `id` names.
    pub fn read(&self, id: MapId) -> (map: &TileMap)
        requires
            self.wf(),
            self@.contains(id),
        ensures
            map.wf(),
            map@ == self@.map(id),
    {
        assert(self@.slots[id.index as int].map == self.slots@[id.index as int].map@);
        &self.slots[id.index].map
    }

    /// Exclusive access to the map that `id` names. Whatever the caller
    /// leaves in the map becomes the map of that name, and nothing else
    /// changes. `lemma_written` says when the registry is well formed
    /// afterwards.
    pub fn write(&mut self, id: MapId) -> (map: &mut TileMap)
        requires
            old(self).wf(),
            old(self)@.contains(id),
        ensures
            map.wf(),
            map@ == old(self)@.map(id),
            final(self)@.len() == old(self)@.len(),
            final(self)@.map(id) == final(map)@,
            final(self)@.is_invalidated(id) == old(self)@.is_invalidated(id),
            forall|i: int|
                0 <= i < old(self)@.len() && i != id.index ==> #[trigger] final(self)@.slots[i] == old(
                    self,
                )@.slots[i],
    {
        assert(self@.slots[id.index as int].map == self.slots@[id.index as int].map@);
        &mut self.slots[id.index].map
    }

    /// Whether the map that `id` names has been discarded.
    pub fn is_invalidated(&self, id: MapId) -> (invalidated: bool)
        requires
            self@.contains(id),
        ensures
            invalidated == self@.is_invalidated(id),
    {
        self.slots[id.index].invalidated
    }

    /// Discards the map that `id` names. The handle is not recycled: it
    /// keeps naming the discarded map.
    pub fn invalidate(&mut self, id: MapId)
        requires
            old(self).wf(),
            old(self)@.contains(id),
        ensures
            final(self).wf(),
            final(self)@.extends(old(self)@),
            final(self)@ == old(self)@.invalidated(id),
    {
        self.slots[id.index].invalidated = true;
        proof {
            assert(self@.slots =~= old(self)@.invalidated(id).slots);
            assert forall|i: int| 0 <= i < self@.slots.len() implies {
                &&& (#[trigger] self@.slots[i]).map.wf()
                &&& self@.slots[i].map.refers_within(self@.slots.len())
            } by {
                assert(self@.slots[i].map == old(self)@.slots[i].map);
            }
        }
    }

    /// Writes `tile` at `position` of the map that `id` names. Returns
    /// whether the tile was written.
    pub fn tile_type_at_local_set(&mut self, id: MapId, position: Position, tile: TileType) -> (written:
        bool)
        requires
            old(self).wf(),
            old(self)@.contains(id),
        ensures
            final(self).wf(),
            final(self)@.extends(old(self)@),
            final(self)@ == old(self)@.with_map(id, old(self)@.map(id).with_tile(position, tile)),
            written == old(self)@.map(id).takes_tile(position),
    {
        assert(self@.slots[id.index as int].map == self.slots@[id.index as int].map@);
        let written = self.slots[id.index].map.tile_type_at_local_set(position, tile);
        proof {
            let map = old(self)@.map(id).with_tile(position, tile);
            assert(self@.slots =~= old(self)@.with_map(id, map).slots);
            lemma_with_map_wf(old(self)@, id, map);
        }
        written
    }

    /// Sets every cell of `area` that the map that `id` names takes a tile
    /// at to `tile`.
    pub fn fill(&mut self, id: MapId, area: Area, tile: TileType)
        requires
            old(self).wf(),
            old(self)@.contains(id),
        ensures
            final(self).wf(),
            final(self)@.extends(old(self)@),
            final(self)@ == old(self)@.with_map(id, old(self)@.map(id).filled(area, tile)),
    {
        assert(self@.slots[id.index as int].map == self.slots@[id.index as int].map@);
        self.slots[id.index].map.fill(area, tile);
        proof {
            let map = old(self)@.map(id).filled(area, tile);
            assert(self@.slots =~= old(self)@.with_map(id, map).slots);
            lemma_with_map_wf(old(self)@, id, map);
        }
    }

    /// Adds a portal from the map that `id` names to `target` and marks its
    /// tile as a portal tile. A portal has to sit on a cell of its map: for a
    /// `local_position` outside the grid nothing changes and the result is
    /// `false`.
    pub fn add_portal(
        &mut self,
        id: MapId,
        local_position: Position,
        facing: CardinalDirection,
        position_on_target: Position,
        target: MapId,
    ) -> (added: bool)
        requires
            old(self).wf(),
            old(self)@.contains(id),
            old(self)@.contains(target),
        ensures
            final(self).wf(),
            final(self)@.extends(old(self)@),
            added == old(self)@.map(id).in_bounds(local_position),
            added ==> final(self)@ == old(self)@.with_map(
                id,
                old(self)@.map(id).with_portal(
                    Portal { local_position, facing, position_on_target, target },
                ),
            ),
            !added ==> final(self)@ == old(self)@,
    {
        assert(self@.slots[id.index as int].map == self.slots@[id.index as int].map@);
        let portal = Portal { local_position, facing, position_on_target, target };
        let added = self.slots[id.index].map.add_portal(portal);
        proof {
            if added {
                let map = old(self)@.map(id).with_portal(portal);
                assert(self@.slots =~= old(self)@.with_map(id, map).slots);
                lemma_with_map_wf(old(self)@, id, map);
            } else {
                assert(self@.slots =~= old(self)@.slots);
            }
        }
        added
    }

    /// Changes where portal `index` of the map that `id` names arrives on
    /// its target.
    pub fn set_portal_position_on_target(&mut self, id: MapId, index: usize, position: Position)
        requires
            old(self).wf(),
            old(self)@.contains(id),
            index < old(self)@.map(id).portals.len(),
        ensures
            final(self).wf(),
            final(self)@.extends(old(self)@),
            final(self)@ == old(self)@.with_map(
                id,
                old(self)@.map(id).with_position_on_target(index as int, position),
            ),
    {
        assert(self@.slots[id.index as int].map == self.slots@[id.index as int].map@);
        self.slots[id.index].map.set_position_on_target(index, position);
        proof {
            let map = old(self)@.map(id).with_position_on_target(index as int, position);
            assert(self@.slots =~= old(self)@.with_map(id, map).slots);
            lemma_with_map_wf(old(self)@, id, map);
        }
    }

    /// Embeds the map `target` at `offset` in the map that `id` names.
    pub fn add_sub_map(&mut self, id: MapId, offset: Position, target: MapId)
        requires
            old(self).wf(),
            old(self)@.contains(id),
            old(self)@.contains(target),
        ensures
            final(self).wf(),
            final(self)@.extends(old(self)@),
            final(self)@ == old(self)@.with_map(
                id,
                old(self)@.map(id).with_sub_map(SubMapRef { offset, target }),
            ),
    {
        assert(self@.slots[id.index as int].map == self.slots@[id.index as int].map@);
        self.slots[id.index].map.add_sub_map(SubMapRef { offset, target });
        proof {
            let map = old(self)@.map(id).with_sub_map(SubMapRef { offset, target });
            assert(self@.slots =~= old(self)@.with_map(id, map).slots);
            lemma_with_map_wf(old(self)@, id, map);
        }
    }
}

} // verus!
