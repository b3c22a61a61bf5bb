//! Fills a rectangle of a map with one kind of tile.

use crate::dun_gen::DoesDunGen;
use crate::geometry::{Area, Position, Size};
use crate::map::{count_in_row, count_in_rows, MapId, MapModel, TileType, MAX_EXTENT};
use crate::providers::ProvidesPlacedShape;
use crate::registry::{MapRegistry, RegistryModel};
use crate::visit_map_once_generator::keeps_portal_targets;
use vstd::prelude::*;

verus! {

/// Sets every tile of a rectangle to one kind of tile. The map grows to hold
/// the rectangle. A rectangle without columns or without rows changes
/// nothing.
pub struct FillTilesGenerator<TProvidesPlacedShape> where
    TProvidesPlacedShape: ProvidesPlacedShape + Sized,
 {
    provides_placed_shape: TProvidesPlacedShape,
    tile_type_fill: TileType,
}

impl<TProvidesPlacedShape> FillTilesGenerator<TProvidesPlacedShape> where
    TProvidesPlacedShape: ProvidesPlacedShape + Sized,
 {
    pub closed spec fn provides_placed_shape(&self) -> TProvidesPlacedShape {
        self.provides_placed_shape
    }

    pub closed spec fn tile_type_fill(&self) -> TileType {
        self.tile_type_fill
    }

    /// A generator that fills the shape that `provides_placed_shape` gives
    /// with `tile_type_fill`.
    pub fn new(provides_placed_shape: TProvidesPlacedShape, tile_type_fill: TileType) -> (generator:
        Self)
        ensures
            generator.wf(),
            generator.provides_placed_shape() == provides_placed_shape,
            generator.tile_type_fill() == tile_type_fill,
    {
        Self { provides_placed_shape, tile_type_fill }
    }
}

impl<TProvidesPlacedShape> DoesDunGen for FillTilesGenerator<TProvidesPlacedShape> where
    TProvidesPlacedShape: ProvidesPlacedShape + Sized,
 {
    open spec fn wf(&self) -> bool {
        true
    }

    open spec fn effect(
        &self,
        after: &Self,
        before: RegistryModel,
        map_id: MapId,
        maps: RegistryModel,
    ) -> bool {
        &&& *after == *self
        &&& exists|shape: Area| #[trigger]
            self.provides_placed_shape().provides_placed_shape(shape) && maps == before.with_map(
                map_id,
                before.map(map_id).filled(shape, self.tile_type_fill()),
            )
    }

    fn dun_gen_map(&mut self, maps: &mut MapRegistry, map_id: MapId) {
        let shape: Area = self.provides_placed_shape.provide_placed_shape();
        maps.fill(map_id, shape, self.tile_type_fill);
        proof {
            assert(old(self).provides_placed_shape().provides_placed_shape(shape));
        }
    }
}

/// The room that comes of filling a rectangle of `width` by `height` tiles
/// at the origin of an empty map with walls and then the rectangle that
/// lies one tile inside it with floor.
pub open spec fn walled_floor(width: u32, height: u32) -> MapModel {
    MapModel::empty().filled(
        Area { position: Position { x: 0, y: 0 }, size: Size { width, height } },
        TileType::Wall,
    ).filled(
        Area {
            position: Position { x: 1, y: 1 },
            size: Size { width: (width - 2) as u32, height: (height - 2) as u32 },
        },
        TileType::Floor,
    )
}

/// The counts of walls and floor tiles in the first `n` cells of a row that
/// starts and ends with a wall and has floor in between.
proof fn lemma_count_bordered_row(row: Seq<TileType>, n: int)
    requires
        row.len() >= 2,
        0 <= n <= row.len(),
        row[0] == TileType::Wall,
        row[row.len() - 1] == TileType::Wall,
        forall|x: int| 0 < x < row.len() - 1 ==> row[x] == TileType::Floor,
    ensures
        count_in_row(row.take(n), TileType::Wall) == if n == 0 {
            0int
        } else if n < row.len() {
            1int
        } else {
            2int
        },
        count_in_row(row.take(n), TileType::Floor) == if n == 0 {
            0int
        } else if n < row.len() {
            n - 1
        } else {
            row.len() - 2
        },
    decreases n,
{
    if n > 0 {
        lemma_count_bordered_row(row, n - 1);
        assert(row.take(n).drop_last() =~= row.take(n - 1));
        assert(row.take(n).last() == row[n - 1]);
    }
}

/// The counts of walls and floor tiles in the first `n` cells of a row of
/// walls.
proof fn lemma_count_wall_row(row: Seq<TileType>, n: int)
    requires
        0 <= n <= row.len(),
        forall|x: int| 0 <= x < row.len() ==> row[x] == TileType::Wall,
    ensures
        count_in_row(row.take(n), TileType::Wall) == n,
        count_in_row(row.take(n), TileType::Floor) == 0,
    decreases n,
{
    if n > 0 {
        lemma_count_wall_row(row, n - 1);
        assert(row.take(n).drop_last() =~= row.take(n - 1));
        assert(row.take(n).last() == row[n - 1]);
    }
}

/// The counts of walls and floor tiles in the first `n` rows of a walled
/// floor.
proof fn lemma_count_walled_rows(width: u32, height: u32, n: int)
    requires
        2 <= width <= MAX_EXTENT,
        2 <= height <= MAX_EXTENT,
        0 <= n <= height,
    ensures
        count_in_rows(walled_floor(width, height).rows.take(n), TileType::Wall) == if n == 0 {
            0int
        } else if n < height {
            width + 2 * (n - 1)
        } else {
            2 * width + 2 * (height - 2)
        },
        count_in_rows(walled_floor(width, height).rows.take(n), TileType::Floor) == if n == 0 {
            0int
        } else if n < height {
            (n - 1) * (width - 2)
        } else {
            (height - 2) * (width - 2)
        },
    decreases n,
{
    let rows = walled_floor(width, height).rows;
    if n > 0 {
        lemma_count_walled_rows(width, height, n - 1);
        assert(rows.take(n).drop_last() =~= rows.take(n - 1));
        let row = rows[n - 1];
        assert(rows.take(n).last() == row);
        assert(row.len() == width);
        assert(row.take(width as int) =~= row);
        if n == 1 || n == height {
            lemma_count_wall_row(row, width as int);
        } else {
            lemma_count_bordered_row(row, width as int);
        }
        assert((n - 2) * (width - 2) + (width - 2) == (n - 1) * (width - 2)) by (nonlinear_arith);
    }
}

/// The boundary of a fill, for the generators. If a generator that fills
/// `width` by `height` tiles at the origin with walls is applied to an empty
/// map, and then a generator that fills the rectangle one tile inside it
/// with floor, the map is a walled floor: it has
/// `2 * width + 2 * height - 4` walls and `(width - 2) * (height - 2)` floor
/// tiles, for a width and a height of at least two. For a width or a height
/// of two the inner rectangle is empty and the second generator changes
/// nothing.
pub proof fn lemma_generators_fill_boundary(
    walls: FillTilesGenerator<Size>,
    walls_after: FillTilesGenerator<Size>,
    floor: FillTilesGenerator<Area>,
    floor_after: FillTilesGenerator<Area>,
    before: RegistryModel,
    between: RegistryModel,
    maps: RegistryModel,
    map_id: MapId,
    width: u32,
    height: u32,
)
    requires
        2 <= width <= MAX_EXTENT,
        2 <= height <= MAX_EXTENT,
        before.contains(map_id),
        before.map(map_id) == MapModel::empty(),
        walls.provides_placed_shape() == (Size { width, height }),
        walls.tile_type_fill() == TileType::Wall,
        floor.provides_placed_shape() == (Area {
            position: Position { x: 1, y: 1 },
            size: Size { width: (width - 2) as u32, height: (height - 2) as u32 },
        }),
        floor.tile_type_fill() == TileType::Floor,
        walls.effect(&walls_after, before, map_id, between),
        floor.effect(&floor_after, between, map_id, maps),
    ensures
        maps.map(map_id) == walled_floor(width, height),
        maps.map(map_id).size() == (Size { width, height }),
        maps.map(map_id).count(TileType::Wall) == 2 * width + 2 * height - 4,
        maps.map(map_id).count(TileType::Floor) == (width - 2) * (height - 2),
{
    lemma_fill_boundary(width, height);
}

/// The boundary of a fill. Filling a rectangle of `width` by `height` tiles
/// with walls and then the rectangle that lies one tile inside it with
/// floor leaves `2 * width + 2 * height - 4` walls and
/// `(width - 2) * (height - 2)` floor tiles, for a width and a height of at
/// least two.
pub proof fn lemma_fill_boundary(width: u32, height: u32)
    requires
        2 <= width <= MAX_EXTENT,
        2 <= height <= MAX_EXTENT,
    ensures
        walled_floor(width, height).wf(),
        walled_floor(width, height).size() == (Size { width, height }),
        walled_floor(width, height).count(TileType::Wall) == 2 * width + 2 * height - 4,
        walled_floor(width, height).count(TileType::Floor) == (width - 2) * (height - 2),
{
    let room = walled_floor(width, height);
    lemma_count_walled_rows(width, height, height as int);
    assert(room.rows.take(height as int) =~= room.rows);
}

/// A fill leaves the portal graph as it is: it changes tiles only.
pub proof fn lemma_fill_keeps_portal_targets<TProvidesPlacedShape: ProvidesPlacedShape + Sized>()
    ensures
        keeps_portal_targets::<FillTilesGenerator<TProvidesPlacedShape>>(),
{
    assert forall|
        generator: FillTilesGenerator<TProvidesPlacedShape>,
        after: FillTilesGenerator<TProvidesPlacedShape>,
        before: RegistryModel,
        map_id: MapId,
        maps: RegistryModel,
        other: MapId,
    |
        #![trigger generator.effect(&after, before, map_id, maps), maps.portal_targets(other)]
        generator.effect(&after, before, map_id, maps) && before.contains(map_id)
            && before.contains(other) implies maps.portal_targets(other) == before.portal_targets(
            other,
        ) by {
        let shape = choose|shape: Area| #[trigger]
            generator.provides_placed_shape().provides_placed_shape(shape) && maps
                == before.with_map(
                map_id,
                before.map(map_id).filled(shape, generator.tile_type_fill()),
            );
        assert(before.map(map_id).filled(shape, generator.tile_type_fill()).portals == before.map(
            map_id,
        ).portals);
        if other != map_id {
            assert(maps.map(other) == before.map(other));
        }
    }
}

} // verus!
