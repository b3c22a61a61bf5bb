//! Places portals at random on the rim of a map, placed or not.

use crate::dun_gen::DoesDunGen;
use crate::dun_gen_placed::DoesDunGenPlaced;
use crate::edge_portals_generator::{models_of, portals_placed};
use crate::geometry::{CardinalDirection, Position, Size};
use crate::map::{MapId, TileMap, MAX_EXTENT};
use crate::providers::provides_fresh_maps;
use crate::random::{random_in_range, random_ratio};
use crate::reciprocate_portals_generator::is_degenerate;
use crate::registry::{MapRegistry, RegistryModel};
use vstd::prelude::*;

verus! {

/// A choice of a rim tile: one of the two vertical edges or one of the two
/// horizontal edges, the first or the second of the two, and how far along
/// the edge.
pub struct EdgePick {
    /// Whether the tile lies on the west or east edge.
    pub on_vertical: bool,
    /// Whether the tile lies on the west edge, or on the top edge.
    pub on_first: bool,
    /// The row of a tile on a vertical edge, the column of one on a
    /// horizontal edge.
    pub draw: int,
}

/// Whether `pick` names a rim tile of a map of the given size that is no
/// corner.
pub open spec fn is_edge_pick(size: Size, pick: EdgePick) -> bool {
    1 <= pick.draw < (if pick.on_vertical {
        size.height
    } else {
        size.width
    }) - 1
}

/// The rim tile that `pick` names on a map of the given size.
pub open spec fn picked_position(size: Size, pick: EdgePick) -> Position {
    if pick.on_vertical {
        Position {
            x: if pick.on_first {
                0
            } else {
                (size.width - 1) as i32
            },
            y: pick.draw as i32,
        }
    } else {
        Position {
            x: pick.draw as i32,
            y: if pick.on_first {
                0
            } else {
                (size.height - 1) as i32
            },
        }
    }
}

/// The direction in which a portal on the rim tile that `pick` names
/// opens: away from its edge, into the map.
pub open spec fn picked_facing(pick: EdgePick) -> CardinalDirection {
    if pick.on_vertical {
        if pick.on_first {
            CardinalDirection::East
        } else {
            CardinalDirection::West
        }
    } else {
        if pick.on_first {
            CardinalDirection::South
        } else {
            CardinalDirection::North
        }
    }
}

/// The rim tile that a pick names on a map of the given size, and the
/// direction in which a portal there opens; `None` exactly when the map is
/// too small or too large to have portals on its rim, or the pick names no
/// rim tile that is no corner.
pub fn place_on_edge(size: Size, on_vertical: bool, on_first: bool, draw: u32) -> (place: Option<
    (Position, CardinalDirection),
>)
    ensures
        place.is_some() <==> !is_degenerate(size) && size.width <= MAX_EXTENT && size.height
            <= MAX_EXTENT && is_edge_pick(size, EdgePick { on_vertical, on_first, draw: draw as int }),
        place.is_some() ==> place.unwrap() == (
            picked_position(size, EdgePick { on_vertical, on_first, draw: draw as int }),
            picked_facing(EdgePick { on_vertical, on_first, draw: draw as int }),
        ),
{
    if size.width < 3 || size.height < 3 || size.width > MAX_EXTENT || size.height > MAX_EXTENT
        || draw < 1 {
        return None;
    }
    if on_vertical {
        if draw >= size.height - 1 {
            None
        } else if on_first {
            Some((Position { x: 0, y: draw as i32 }, CardinalDirection::East))
        } else {
            Some((Position { x: (size.width - 1) as i32, y: draw as i32 }, CardinalDirection::West))
        }
    } else {
        if draw >= size.width - 1 {
            None
        } else if on_first {
            Some((Position { x: draw as i32, y: 0 }, CardinalDirection::South))
        } else {
            Some(
                (Position { x: draw as i32, y: (size.height - 1) as i32 }, CardinalDirection::North),
            )
        }
    }
}

/// The rim tiles that `picks` name on a map of the given size, each with
/// the direction in which a portal there opens.
pub open spec fn picked_places(size: Size, picks: Seq<EdgePick>) -> Seq<
    (Position, CardinalDirection),
> {
    Seq::new(picks.len(), |k: int| (picked_position(size, picks[k]), picked_facing(picks[k])))
}

/// Adds a given number of portals to the rim of a map, corners excluded.
/// Each portal is one-way and leads to a map of its own that the map
/// provider supplies.
///
/// For each portal an edge is chosen at random: a vertical one with the odds
/// of the height of the map against its width, and then either of the two
/// with even odds. The tile along the edge is drawn at random; two portals
/// may share a tile. A map narrower or lower than three tiles is left as it
/// is.
pub struct EdgePortalsDunGen<TMapProvider> where TMapProvider: Fn() -> TileMap {
    count: usize,
    placed_room_box_func: TMapProvider,
}

impl<TMapProvider> EdgePortalsDunGen<TMapProvider> where TMapProvider: Fn() -> TileMap {
    pub closed spec fn count(&self) -> usize {
        self.count
    }

    pub closed spec fn map_provider(&self) -> TMapProvider {
        self.placed_room_box_func
    }

    /// Whether adding the portals to the map `map_id` can turn the registry
    /// `before` into `maps`.
    pub open spec fn adds_portals(
        &self,
        before: RegistryModel,
        map_id: MapId,
        maps: RegistryModel,
    ) -> bool {
        let size = before.map(map_id).size();
        exists|picks: Seq<EdgePick>, provided: Seq<TileMap>|
            {
                &&& picks.len() == if is_degenerate(size) {
                    0
                } else {
                    self.count() as int
                }
                &&& provided.len() == picks.len()
                &&& forall|k: int| 0 <= k < picks.len() ==> is_edge_pick(size, #[trigger] picks[k])
                &&& forall|k: int|
                    0 <= k < provided.len() ==> call_ensures(
                        self.map_provider(),
                        (),
                        #[trigger] provided[k],
                    )
                &&& maps == #[trigger] portals_placed(
                    before,
                    map_id,
                    picked_places(size, picks),
                    models_of(provided),
                )
            }
    }

    /// A generator that adds `count` portals, each to a map from
    /// `placed_room_box_func`.
    pub fn new(count: usize, placed_room_box_func: TMapProvider) -> (generator: Self)
        requires
            provides_fresh_maps(placed_room_box_func),
        ensures
            generator.wf(),
            generator.count() == count,
            generator.map_provider() == placed_room_box_func,
    {
        Self { count, placed_room_box_func }
    }

    /// Adds the portals to the map `map_id`.
    fn add_portals(&self, maps: &mut MapRegistry, map_id: MapId)
        requires
            provides_fresh_maps(self.map_provider()),
            old(maps).wf(),
            old(maps)@.contains(map_id),
        ensures
            final(maps).wf(),
            final(maps)@.extends(old(maps)@),
            self.adds_portals(old(maps)@, map_id, final(maps)@),
    {
        let size: Size = maps.read(map_id).size();
        let ghost mut picks: Seq<EdgePick> = Seq::empty();
        let ghost mut provided: Seq<TileMap> = Seq::empty();
        if size.width < 3 || size.height < 3 {
            proof {
                assert(maps@ == portals_placed(
                    old(maps)@,
                    map_id,
                    picked_places(size, picks),
                    models_of(provided),
                ));
            }
            return ;
        }
        let mut placed: usize = 0;
        while placed < self.count
            invariant
                provides_fresh_maps(self.map_provider()),
                maps.wf(),
                maps@.extends(old(maps)@),
                maps@.contains(map_id),
                old(maps)@.contains(map_id),
                size == old(maps)@.map(map_id).size(),
                size == maps@.map(map_id).size(),
                !is_degenerate(size),
                size.width <= MAX_EXTENT,
                size.height <= MAX_EXTENT,
                placed <= self.count,
                picks.len() == placed,
                provided.len() == placed,
                forall|k: int| 0 <= k < picks.len() ==> is_edge_pick(size, #[trigger] picks[k]),
                forall|k: int|
                    0 <= k < provided.len() ==> call_ensures(
                        self.map_provider(),
                        (),
                        #[trigger] provided[k],
                    ),
                maps@ == portals_placed(
                    old(maps)@,
                    map_id,
                    picked_places(size, picks),
                    models_of(provided),
                ),
            decreases self.count - placed,
        {
            let on_vertical: bool = random_ratio(size.height, size.height + size.width);
            let extent: u32 = if on_vertical {
                size.height
            } else {
                size.width
            };
            let draw: u32 = random_in_range(1, extent as u64 - 1) as u32;
            let on_first: bool = random_ratio(1, 2);
            let place = place_on_edge(size, on_vertical, on_first, draw).unwrap();
            let map: TileMap = (self.placed_room_box_func)();
            let target: MapId = maps.insert(map);
            let added: bool = maps.add_portal(map_id, place.0, place.1, Position::zero(), target);
            proof {
                assert(added);
                let pick = EdgePick { on_vertical, on_first, draw: draw as int };
                let models = models_of(provided);
                let picks_now = picks.push(pick);
                let provided_now = provided.push(map);
                let models_now = models_of(provided_now);
                assert(picked_places(size, picks_now).drop_last() =~= picked_places(size, picks));
                assert(models_now.drop_last() =~= models);
                assert(models_now.last() == map@);
                picks = picks_now;
                provided = provided_now;
            }
            placed = placed + 1;
        }
        proof {
            assert(maps@ == portals_placed(
                old(maps)@,
                map_id,
                picked_places(size, picks),
                models_of(provided),
            ));
        }
    }
}

impl<TMapProvider> DoesDunGen for EdgePortalsDunGen<TMapProvider> where
    TMapProvider: Fn() -> TileMap,
 {
    open spec fn wf(&self) -> bool {
        provides_fresh_maps(self.map_provider())
    }

    open spec fn effect(
        &self,
        after: &Self,
        before: RegistryModel,
        map_id: MapId,
        maps: RegistryModel,
    ) -> bool {
        *after == *self && self.adds_portals(before, map_id, maps)
    }

    fn dun_gen_map(&mut self, maps: &mut MapRegistry, map_id: MapId) {
        self.add_portals(maps, map_id);
    }
}

impl<TMapProvider> DoesDunGenPlaced for EdgePortalsDunGen<TMapProvider> where
    TMapProvider: Fn() -> TileMap,
 {
    open spec fn placed_effect(
        &self,
        after: &Self,
        before: RegistryModel,
        map_id: MapId,
        maps: RegistryModel,
    ) -> bool {
        *after == *self && self.adds_portals(before, map_id, maps)
    }

    fn dun_gen_placed_map(&mut self, maps: &mut MapRegistry, map_id: MapId) {
        self.add_portals(maps, map_id);
    }
}

} // verus!
