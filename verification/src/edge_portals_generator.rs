//! Places portals at random on the rim of a map.

use crate::dun_gen::DoesDunGen;
use crate::geometry::{CardinalDirection, Position, Size};
use crate::map::{
    lemma_with_tile_inside, MapId, MapModel, Portal, TileMap, TileType, MAX_EXTENT,
};
use crate::providers::{provides_fresh_maps, ProvidesCount};
use crate::random::random_in_range;
use crate::registry::{lemma_with_map_wf, MapRegistry, RegistryModel, SlotModel};
use vstd::prelude::*;

verus! {

/// How many tiles on the rim of a map of the given size can hold a portal:
/// the rim tiles that are no corners. A map narrower or lower than three
/// tiles has none.
pub open spec fn edge_tile_count(size: Size) -> int {
    if size.width < 3 || size.height < 3 || size.width > MAX_EXTENT || size.height > MAX_EXTENT {
        0
    } else {
        2 * (size.width - 2) + 2 * (size.height - 2)
    }
}

/// The rim tile with the given number. The tiles are numbered along the top
/// row from west to east, then row by row down the two sides, west before
/// east, then along the bottom row from west to east.
pub open spec fn edge_tile(size: Size, index: int) -> Position {
    let across = size.width - 2;
    let down = size.height - 2;
    if index < across {
        Position { x: (index + 1) as i32, y: 0 }
    } else if index < across + 2 * down {
        let side = index - across;
        Position {
            x: if side % 2 == 0 {
                0
            } else {
                (size.width - 1) as i32
            },
            y: (side / 2 + 1) as i32,
        }
    } else {
        Position { x: (index - across - 2 * down + 1) as i32, y: (size.height - 1) as i32 }
    }
}

/// The direction in which a portal on the rim tile `position` opens: away
/// from the edge it sits on, into the map.
pub open spec fn edge_facing(size: Size, position: Position) -> CardinalDirection {
    if position.x == 0 {
        CardinalDirection::East
    } else if position.x == size.width - 1 {
        CardinalDirection::West
    } else if position.y == 0 {
        CardinalDirection::South
    } else {
        CardinalDirection::North
    }
}

/// The rim tile with number `index` of a map of the given size, or `None`
/// if the map has no rim tile of that number.
pub fn edge_tile_at(size: Size, index: u64) -> (tile: Option<Position>)
    ensures
        tile.is_some() <==> index < edge_tile_count(size),
        tile.is_some() ==> tile.unwrap() == edge_tile(size, index as int),
{
    if size.width < 3 || size.height < 3 || size.width > MAX_EXTENT || size.height > MAX_EXTENT {
        return None;
    }
    let across: u64 = (size.width - 2) as u64;
    let down: u64 = (size.height - 2) as u64;
    if index < across {
        Some(Position { x: (index + 1) as i32, y: 0 })
    } else if index < across + 2 * down {
        let side: u64 = index - across;
        let x: i32 = if side % 2 == 0 {
            0
        } else {
            (size.width - 1) as i32
        };
        Some(Position { x, y: (side / 2 + 1) as i32 })
    } else if index < 2 * across + 2 * down {
        Some(Position { x: (index - across - 2 * down + 1) as i32, y: (size.height - 1) as i32 })
    } else {
        None
    }
}

/// The direction in which a portal on the rim tile `position` of a map of
/// the given size opens.
pub fn facing_on_edge(size: Size, position: Position) -> (facing: CardinalDirection)
    ensures
        facing == edge_facing(size, position),
{
    if position.x == 0 {
        CardinalDirection::East
    } else if position.x as i64 == size.width as i64 - 1 {
        CardinalDirection::West
    } else if position.y == 0 {
        CardinalDirection::South
    } else {
        CardinalDirection::North
    }
}

/// Every numbered rim tile lies on the rim of the map and is no corner.
pub proof fn lemma_edge_tile_on_rim(size: Size, index: int)
    requires
        0 <= index < edge_tile_count(size),
    ensures
        0 <= edge_tile(size, index).x < size.width,
        0 <= edge_tile(size, index).y < size.height,
        ({
            let p = edge_tile(size, index);
            let on_side = p.x == 0 || p.x == size.width - 1;
            let on_end = p.y == 0 || p.y == size.height - 1;
            on_side != on_end
        }),
{
}

/// The contents of the given maps.
pub open spec fn models_of(maps: Seq<TileMap>) -> Seq<MapModel> {
    Seq::new(maps.len(), |k: int| maps[k]@)
}

/// The rim tiles that `picks` name on a map of the given size, each with
/// the direction in which a portal there opens.
pub open spec fn edge_places(size: Size, picks: Seq<int>) -> Seq<(Position, CardinalDirection)> {
    Seq::new(
        picks.len(),
        |k: int| (edge_tile(size, picks[k]), edge_facing(size, edge_tile(size, picks[k]))),
    )
}

/// The portal that is placed at `place` and leads to `target`; it arrives at
/// the origin of its target.
pub open spec fn portal_at(place: (Position, CardinalDirection), target: MapId) -> Portal {
    Portal {
        local_position: place.0,
        facing: place.1,
        position_on_target: Position { x: 0, y: 0 },
        target,
    }
}

/// The registry after one portal has been placed on the map `map_id` at
/// each of `places`, in turn: for each portal one of the maps `provided` is
/// inserted, and the portal leads to it.
pub open spec fn portals_placed(
    before: RegistryModel,
    map_id: MapId,
    places: Seq<(Position, CardinalDirection)>,
    provided: Seq<MapModel>,
) -> RegistryModel
    decreases places.len(),
{
    if places.len() == 0 || provided.len() == 0 {
        before
    } else {
        let earlier = portals_placed(before, map_id, places.drop_last(), provided.drop_last());
        let grown = earlier.inserted(provided.last());
        grown.with_map(
            map_id,
            grown.map(map_id).with_portal(portal_at(places.last(), earlier.next_id())),
        )
    }
}

/// What placing portals comes to, for places on the map and maps without
/// portals or embedded maps: the registry gains one map for each portal, in
/// order, and the map gains the portals, in order, each leading to the map
/// inserted for it and each on a portal tile; the map keeps its size and
/// everything else stays as it is.
pub proof fn lemma_portals_placed(
    before: RegistryModel,
    map_id: MapId,
    places: Seq<(Position, CardinalDirection)>,
    provided: Seq<MapModel>,
)
    requires
        before.wf(),
        before.contains(map_id),
        before.len() + places.len() <= usize::MAX,
        places.len() == provided.len(),
        forall|k: int| 0 <= k < places.len() ==> before.map(map_id).in_bounds((#[trigger] places[k]).0),
        forall|k: int|
            0 <= k < provided.len() ==> (#[trigger] provided[k]).wf() && provided[k].is_unlinked(),
    ensures
        ({
            let maps = portals_placed(before, map_id, places, provided);
            let had = before.map(map_id).portals.len();
            &&& maps.wf()
            &&& maps.extends(before)
            &&& maps.len() == before.len() + places.len()
            &&& maps.map(map_id).size() == before.map(map_id).size()
            &&& maps.map(map_id).sub_maps == before.map(map_id).sub_maps
            &&& maps.map(map_id).portals.len() == had + places.len()
            &&& maps.map(map_id).portals.subrange(0, had as int) == before.map(map_id).portals
            &&& forall|k: int|
                0 <= k < places.len() ==> {
                    &&& #[trigger] maps.map(map_id).portals[had + k] == portal_at(
                        places[k],
                        MapId { index: (before.len() + k) as usize },
                    )
                    &&& maps.map(map_id).tile_at(places[k].0) == Some(TileType::Portal)
                    &&& maps.slots[before.len() + k] == (SlotModel {
                        map: provided[k],
                        invalidated: false,
                    })
                }
            &&& forall|i: int|
                0 <= i < before.len() && i != map_id.index ==> #[trigger] maps.slots[i]
                    == before.slots[i]
        }),
    decreases places.len(),
{
    let had = before.map(map_id).portals.len();
    if places.len() == 0 {
        assert(before.map(map_id).portals.subrange(0, had as int) =~= before.map(map_id).portals);
    } else {
        let n = places.len() - 1;
        let earlier = portals_placed(before, map_id, places.drop_last(), provided.drop_last());
        lemma_portals_placed(before, map_id, places.drop_last(), provided.drop_last());
        let grown = earlier.inserted(provided.last());
        let portal = portal_at(places.last(), earlier.next_id());
        let maps = grown.with_map(map_id, grown.map(map_id).with_portal(portal));
        assert(grown.wf()) by {
            assert forall|i: int| 0 <= i < grown.slots.len() implies {
                &&& (#[trigger] grown.slots[i]).map.wf()
                &&& grown.slots[i].map.refers_within(grown.slots.len())
            } by {
                if i < earlier.slots.len() {
                    assert(grown.slots[i] == earlier.slots[i]);
                }
            }
        }
        assert(grown.map(map_id) == earlier.map(map_id));
        assert(earlier.map(map_id).in_bounds(places[n].0));
        lemma_with_tile_inside(earlier.map(map_id), portal.local_position, TileType::Portal);
        lemma_with_map_wf(grown, map_id, grown.map(map_id).with_portal(portal));
        assert(maps.map(map_id).portals.subrange(0, had as int) =~= before.map(map_id).portals) by {
            assert(earlier.map(map_id).portals.subrange(0, had as int) == before.map(
                map_id,
            ).portals);
        }
        assert forall|k: int| 0 <= k < places.len() implies {
            &&& #[trigger] maps.map(map_id).portals[had + k] == portal_at(
                places[k],
                MapId { index: (before.len() + k) as usize },
            )
            &&& maps.map(map_id).tile_at(places[k].0) == Some(TileType::Portal)
            &&& maps.slots[before.len() + k] == (SlotModel { map: provided[k], invalidated: false })
        } by {
            if k < n {
                assert(places.drop_last()[k] == places[k]);
                assert(provided.drop_last()[k] == provided[k]);
                assert(earlier.map(map_id).portals[had + k] == portal_at(
                    places[k],
                    MapId { index: (before.len() + k) as usize },
                ));
                assert(earlier.map(map_id).covers(places[k].0.x as int, places[k].0.y as int));
            }
        }
    }
}

/// Adds portals to the rim of a map, corners excluded. Each portal is
/// one-way and leads to a map of its own that the map provider supplies.
///
/// The rim tiles are numbered as `edge_tile` says. The first portal goes to
/// a tile drawn at random from all of them, and each later portal to one
/// drawn from one tile fewer, counted from the start of the numbering; two
/// portals may share a tile. A map with fewer rim tiles than the count asked
/// for gets one portal per rim tile. A map narrower or lower than three
/// tiles is left as it is.
pub struct EdgePortalsGenerator<TProvidesCount, TMapProvider> where
    TProvidesCount: ProvidesCount + Sized,
    TMapProvider: Fn() -> TileMap,
 {
    provides_count: TProvidesCount,
    map_provider: TMapProvider,
}

impl<TProvidesCount, TMapProvider> EdgePortalsGenerator<TProvidesCount, TMapProvider> where
    TProvidesCount: ProvidesCount + Sized,
    TMapProvider: Fn() -> TileMap,
 {
    pub closed spec fn provides_count(&self) -> TProvidesCount {
        self.provides_count
    }

    pub closed spec fn map_provider(&self) -> TMapProvider {
        self.map_provider
    }

    /// A generator that adds as many portals as `provides_count` says, each
    /// to a map from `map_provider`.
    pub fn new(provides_count: TProvidesCount, map_provider: TMapProvider) -> (generator: Self)
        requires
            provides_fresh_maps(map_provider),
        ensures
            generator.wf(),
            generator.provides_count() == provides_count,
            generator.map_provider() == map_provider,
    {
        Self { provides_count, map_provider }
    }
}

impl<TProvidesCount, TMapProvider> DoesDunGen for EdgePortalsGenerator<
    TProvidesCount,
    TMapProvider,
> where TProvidesCount: ProvidesCount + Sized, TMapProvider: Fn() -> TileMap {
    open spec fn wf(&self) -> bool {
        provides_fresh_maps(self.map_provider())
    }

    open spec fn effect(
        &self,
        after: &Self,
        before: RegistryModel,
        map_id: MapId,
        maps: RegistryModel,
    ) -> bool {
        let size = before.map(map_id).size();
        &&& *after == *self
        &&& exists|count: usize, picks: Seq<int>, provided: Seq<TileMap>|
            #![trigger
                self.provides_count().provides_count(count),
                portals_placed(before, map_id, edge_places(size, picks), models_of(provided))]
            {
                &&& self.provides_count().provides_count(count)
                &&& picks.len() == if count <= edge_tile_count(size) {
                    count as int
                } else {
                    edge_tile_count(size)
                }
                &&& provided.len() == picks.len()
                &&& forall|k: int|
                    0 <= k < picks.len() ==> 0 <= #[trigger] picks[k] < edge_tile_count(size) - k
                &&& forall|k: int|
                    0 <= k < provided.len() ==> call_ensures(
                        self.map_provider(),
                        (),
                        #[trigger] provided[k],
                    )
                &&& maps == portals_placed(
                    before,
                    map_id,
                    edge_places(size, picks),
                    models_of(provided),
                )
            }
    }

    fn dun_gen_map(&mut self, maps: &mut MapRegistry, map_id: MapId) {
        let size: Size = maps.read(map_id).size();
        let count: usize = self.provides_count.provide_count();
        let mut total: u64 = 0;
        if size.width >= 3 && size.height >= 3 {
            total = 2 * (size.width as u64 - 2) + 2 * (size.height as u64 - 2);
        }
        let rounds: u64 = if (count as u64) <= total {
            count as u64
        } else {
            total
        };
        let ghost mut picks: Seq<int> = Seq::empty();
        let ghost mut provided: Seq<TileMap> = Seq::empty();
        let mut placed: u64 = 0;
        while placed < rounds
            invariant
                self.wf(),
                *self == *old(self),
                maps.wf(),
                maps@.extends(old(maps)@),
                maps@.contains(map_id),
                old(maps)@.contains(map_id),
                size == old(maps)@.map(map_id).size(),
                size == maps@.map(map_id).size(),
                total == edge_tile_count(size),
                placed <= rounds <= total,
                picks.len() == placed,
                provided.len() == placed,
                forall|k: int|
                    0 <= k < picks.len() ==> 0 <= #[trigger] picks[k] < edge_tile_count(size) - k,
                forall|k: int|
                    0 <= k < provided.len() ==> call_ensures(
                        self.map_provider(),
                        (),
                        #[trigger] provided[k],
                    ),
                maps@ == portals_placed(
                    old(maps)@,
                    map_id,
                    edge_places(size, picks),
                    models_of(provided),
                ),
            decreases rounds - placed,
        {
            let pick: u64 = random_in_range(0, total - placed);
            let position: Position = edge_tile_at(size, pick).unwrap();
            let facing: CardinalDirection = facing_on_edge(size, position);
            let map: TileMap = (self.map_provider)();
            let ghost earlier = maps@;
            let target: MapId = maps.insert(map);
            let added: bool = maps.add_portal(map_id, position, facing, Position::zero(), target);
            proof {
                lemma_edge_tile_on_rim(size, pick as int);
                assert(added);
                let models = models_of(provided);
                let picks_now = picks.push(pick as int);
                let provided_now = provided.push(map);
                let models_now = models_of(provided_now);
                assert(edge_places(size, picks_now).drop_last() =~= edge_places(size, picks));
                assert(models_now.drop_last() =~= models);
                assert(models_now.last() == map@);
                picks = picks_now;
                provided = provided_now;
            }
            placed = placed + 1;
        }
        proof {
            assert(old(self).provides_count().provides_count(count));
            assert(maps@ == portals_placed(
                old(maps)@,
                map_id,
                edge_places(size, picks),
                models_of(provided),
            ));
        }
    }
}

} // verus!
