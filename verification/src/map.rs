//! The map entity: a grid of tiles together with the portals that lead out of
//! it and the maps embedded in it.

use crate::geometry::{Area, CardinalDirection, Containment, Position, Size};
use vstd::prelude::*;

verus! {

/// The largest width or height a map can have. Columns and rows are numbered
/// from zero, so every tile of a map has coordinates below this bound.
pub const MAX_EXTENT: u32 = 2147483647;

/// What occupies one cell of a map.
#[derive(Clone, Copy, Debug, PartialEq, Eq, Hash, Structural)]
pub enum TileType {
    Void,
    Floor,
    Wall,
    Portal,
}

/// Identifies a map in a registry. Handles are handed out by the registry in
/// the order of insertion and are never reused.
#[derive(Clone, Copy, Debug, PartialEq, Eq, Hash, Structural)]
pub struct MapId {
    pub index: usize,
}

/// A one-way link from a tile of the owning map to another map.
#[derive(Clone, Copy, Debug, PartialEq, Eq, Hash, Structural)]
pub struct Portal {
    /// Where the portal tile sits on the owning map.
    pub local_position: Position,
    /// The direction the portal opens toward on the owning map.
    pub facing: CardinalDirection,
    /// Where someone passing through the portal arrives on the target map.
    pub position_on_target: Position,
    /// The map the portal leads to.
    pub target: MapId,
}

impl Portal {
    pub fn local_position(&self) -> (p: Position)
        ensures
            p == self.local_position,
    {
        self.local_position
    }

    pub fn facing(&self) -> (d: CardinalDirection)
        ensures
            d == self.facing,
    {
        self.facing
    }

    pub fn position_on_target(&self) -> (p: Position)
        ensures
            p == self.position_on_target,
    {
        self.position_on_target
    }

    pub fn target(&self) -> (id: MapId)
        ensures
            id == self.target,
    {
        self.target
    }

    /// The offset at which the target map has to be embedded in the owner's
    /// frame so that the arrival position on the target coincides with the
    /// portal tile: `local_position - position_on_target`.
    pub open spec fn embedding_offset(self) -> Position {
        self.local_position.minus(self.position_on_target)
    }

    /// Whether `embedding_offset` is representable.
    pub open spec fn embedding_offset_fits(self) -> bool {
        self.local_position.difference_fits(self.position_on_target)
    }
}

/// A map embedded in the coordinate space of another map.
#[derive(Clone, Copy, Debug, PartialEq, Eq, Hash, Structural)]
pub struct SubMapRef {
    /// Where the origin of the embedded map lies in the owner's frame.
    pub offset: Position,
    /// The embedded map.
    pub target: MapId,
}

impl SubMapRef {
    pub fn offset(&self) -> (p: Position)
        ensures
            p == self.offset,
    {
        self.offset
    }

    pub fn target(&self) -> (id: MapId)
        ensures
            id == self.target,
    {
        self.target
    }
}

/// How many cells of `row` hold `tile`.
pub open spec fn count_in_row(row: Seq<TileType>, tile: TileType) -> nat
    decreases row.len(),
{
    if row.len() == 0 {
        0
    } else {
        count_in_row(row.drop_last(), tile) + if row.last() == tile {
            1nat
        } else {
            0nat
        }
    }
}

/// How many cells of `rows` hold `tile`.
pub open spec fn count_in_rows(rows: Seq<Seq<TileType>>, tile: TileType) -> nat
    decreases rows.len(),
{
    if rows.len() == 0 {
        0
    } else {
        count_in_rows(rows.drop_last(), tile) + count_in_row(rows.last(), tile)
    }
}

/// The mathematical content of a map.
///
/// The grid is stored by rows: `rows[y][x]` is the tile in column `x` of row
/// `y`. Cells outside the grid read as `Void`.
pub struct MapModel {
    /// Whether the extent of the grid was fixed when the map was made. The
    /// grid of any other map grows to hold what is written to it.
    pub fixed: bool,
    pub width: nat,
    pub rows: Seq<Seq<TileType>>,
    pub portals: Seq<Portal>,
    pub sub_maps: Seq<SubMapRef>,
}

impl MapModel {
    pub open spec fn height(self) -> nat {
        self.rows.len()
    }

    /// The map without tiles, portals or embedded maps, whose grid grows.
    pub open spec fn empty() -> MapModel {
        MapModel {
            fixed: false,
            width: 0,
            rows: Seq::empty(),
            portals: Seq::empty(),
            sub_maps: Seq::empty(),
        }
    }

    /// The map without portals or embedded maps whose grid has the given
    /// extent for good and holds `Void` everywhere.
    pub open spec fn blank(size: Size) -> MapModel {
        MapModel {
            fixed: true,
            width: size.width as nat,
            rows: Seq::new(
                size.height as nat,
                |y: int| Seq::new(size.width as nat, |x: int| TileType::Void),
            ),
            portals: Seq::empty(),
            sub_maps: Seq::empty(),
        }
    }

    /// Whether column `x` of row `y` is a cell of the grid.
    pub open spec fn covers(self, x: int, y: int) -> bool {
        0 <= x < self.width && 0 <= y < self.rows.len()
    }

    pub open spec fn in_bounds(self, position: Position) -> bool {
        self.covers(position.x as int, position.y as int)
    }

    /// The grid is rectangular, within the size limit, and every portal sits
    /// on a cell of the grid.
    pub open spec fn wf(self) -> bool {
        &&& self.width <= MAX_EXTENT
        &&& self.rows.len() <= MAX_EXTENT
        &&& forall|y: int| 0 <= y < self.rows.len() ==> (#[trigger] self.rows[y]).len() == self.width
        &&& forall|i: int|
            0 <= i < self.portals.len() ==> self.in_bounds((#[trigger] self.portals[i]).local_position)
    }

    /// The tile in column `x` of row `y`; `Void` outside the grid.
    pub open spec fn cell(self, x: int, y: int) -> TileType {
        if self.covers(x, y) {
            self.rows[y][x]
        } else {
            TileType::Void
        }
    }

    /// The tile at `position`, or `None` outside the grid.
    pub open spec fn tile_at(self, position: Position) -> Option<TileType> {
        if self.in_bounds(position) {
            Some(self.rows[position.y as int][position.x as int])
        } else {
            None
        }
    }

    pub open spec fn size(self) -> Size {
        Size { width: self.width as u32, height: self.rows.len() as u32 }
    }

    /// The rectangle covered by the grid, with its corner at the origin.
    pub open spec fn area(self) -> Area {
        Area { position: Position { x: 0, y: 0 }, size: self.size() }
    }

    /// How many cells hold `tile`.
    pub open spec fn count(self, tile: TileType) -> nat {
        count_in_rows(self.rows, tile)
    }

    /// The same content on a grid of `width` columns and `height` rows; cells
    /// that the old grid lacks are `Void`.
    pub open spec fn resized(self, width: nat, height: nat) -> MapModel {
        MapModel {
            width,
            rows: Seq::new(height, |y: int| Seq::new(width, |x: int| self.cell(x, y))),
            ..self
        }
    }

    /// The map with `paint(x, y)` written to every cell for which it is
    /// `Some`, on a grid of `width` columns and `height` rows.
    pub open spec fn repainted(
        self,
        width: nat,
        height: nat,
        paint: spec_fn(int, int) -> Option<TileType>,
    ) -> MapModel {
        MapModel {
            width,
            rows: Seq::new(
                height,
                |y: int|
                    Seq::new(
                        width,
                        |x: int|
                            match paint(x, y) {
                                Some(tile) => tile,
                                None => self.cell(x, y),
                            },
                    ),
            ),
            ..self
        }
    }

    /// The last column that filling `area` writes to.
    pub open spec fn fill_last_column(area: Area) -> int {
        if area.spec_right() < MAX_EXTENT {
            area.spec_right()
        } else {
            MAX_EXTENT - 1
        }
    }

    /// The last row that filling `area` writes to.
    pub open spec fn fill_last_row(area: Area) -> int {
        if area.spec_bottom() < MAX_EXTENT {
            area.spec_bottom()
        } else {
            MAX_EXTENT - 1
        }
    }

    /// Whether `area` holds a cell that a map can store: one with
    /// coordinates from zero up to the size limit.
    pub open spec fn fill_reaches(area: Area) -> bool {
        &&& area.size.width > 0
        &&& area.size.height > 0
        &&& 0 <= area.spec_right()
        &&& 0 <= area.spec_bottom()
        &&& area.spec_left() < MAX_EXTENT
        &&& area.spec_top() < MAX_EXTENT
    }

    /// Whether a map can store a tile at `position`.
    pub open spec fn storable(position: Position) -> bool {
        0 <= position.x < MAX_EXTENT && 0 <= position.y < MAX_EXTENT
    }

    /// Whether this map takes a tile at `position`: a map of fixed extent
    /// takes tiles on its grid, any other map wherever a map can store one.
    pub open spec fn takes_tile(self, position: Position) -> bool {
        if self.fixed {
            self.in_bounds(position)
        } else {
            Self::storable(position)
        }
    }

    /// The map after every cell of `area` that the map takes a tile at has
    /// been set to `tile`. Unless its extent is fixed, the grid grows as far
    /// as needed to hold the storable cells of `area`; cells gained by
    /// growing and not in `area` are `Void`.
    pub open spec fn filled(self, area: Area, tile: TileType) -> MapModel {
        if Self::fill_reaches(area) {
            let last_column = Self::fill_last_column(area);
            let last_row = Self::fill_last_row(area);
            let width = if self.fixed || self.width > last_column {
                self.width
            } else {
                (last_column + 1) as nat
            };
            let height = if self.fixed || self.rows.len() > last_row {
                self.rows.len()
            } else {
                (last_row + 1) as nat
            };
            self.repainted(
                width,
                height,
                |x: int, y: int|
                    if area.covers(x, y) {
                        Some(tile)
                    } else {
                        None
                    },
            )
        } else {
            self
        }
    }

    /// The map after `tile` has been written at `position`.
    pub open spec fn with_tile(self, position: Position, tile: TileType) -> MapModel {
        self.filled(Area { position, size: Size { width: 1, height: 1 } }, tile)
    }

    /// The map after `portal` has been added: the portal is appended to the
    /// list and its tile becomes a portal tile.
    pub open spec fn with_portal(self, portal: Portal) -> MapModel {
        MapModel {
            portals: self.portals.push(portal),
            ..self.with_tile(portal.local_position, TileType::Portal)
        }
    }

    /// The map after the arrival position of portal `index` has been changed.
    pub open spec fn with_position_on_target(self, index: int, position: Position) -> MapModel {
        MapModel {
            portals: self.portals.update(
                index,
                Portal { position_on_target: position, ..self.portals[index] },
            ),
            ..self
        }
    }

    /// The map after `sub_map` has been embedded.
    pub open spec fn with_sub_map(self, sub_map: SubMapRef) -> MapModel {
        MapModel { sub_maps: self.sub_maps.push(sub_map), ..self }
    }

    /// The map after all of `sub_maps` have been embedded, in order.
    pub open spec fn with_sub_maps(self, sub_maps: Seq<SubMapRef>) -> MapModel {
        MapModel { sub_maps: self.sub_maps + sub_maps, ..self }
    }

    /// The targets of the portals, in the order of the portals.
    pub open spec fn portal_targets(self) -> Seq<MapId> {
        Seq::new(self.portals.len(), |i: int| self.portals[i].target)
    }

    /// Whether the map has neither portals nor embedded maps.
    pub open spec fn is_unlinked(self) -> bool {
        self.portals.len() == 0 && self.sub_maps.len() == 0
    }

    /// Whether every portal and every embedded map refers to one of the
    /// first `n` handles.
    pub open spec fn refers_within(self, n: nat) -> bool {
        &&& forall|i: int|
            0 <= i < self.portals.len() ==> (#[trigger] self.portals[i]).target.index < n
        &&& forall|i: int|
            0 <= i < self.sub_maps.len() ==> (#[trigger] self.sub_maps[i]).target.index < n
    }
}

/// A map: a grid of tiles, the portals that lead out of it, and the maps
/// embedded in it.
///
/// The grid starts empty and grows to hold every tile written to it. Portals
/// and embedded maps name other maps by handle, so they are added through
/// the registry that owns the map.
#[derive(Debug)]
pub struct TileMap {
    fixed: bool,
    width: u32,
    rows: Vec<Vec<TileType>>,
    portals: Vec<Portal>,
    sub_maps: Vec<SubMapRef>,
}

impl View for TileMap {
    type V = MapModel;

    closed spec fn view(&self) -> MapModel {
        MapModel {
            fixed: self.fixed,
            width: self.width as nat,
            rows: Seq::new(self.rows@.len(), |y: int| self.rows@[y]@),
            portals: self.portals@,
            sub_maps: self.sub_maps@,
        }
    }
}

/// Appends `Void` cells to `row` until it has `width` cells.
fn widen_row(row: &mut Vec<TileType>, width: usize)
    requires
        old(row).len() <= width,
    ensures
        final(row)@.len() == width,
        forall|x: int| 0 <= x < old(row)@.len() ==> final(row)@[x] == old(row)@[x],
        forall|x: int| old(row)@.len() <= x < width ==> final(row)@[x] == TileType::Void,
{
    while row.len() < width
        invariant
            old(row)@.len() <= row@.len() <= width,
            forall|x: int| 0 <= x < old(row)@.len() ==> row@[x] == old(row)@[x],
            forall|x: int| old(row)@.len() <= x < row@.len() ==> row@[x] == TileType::Void,
        decreases width - row.len(),
    {
        row.push(TileType::Void);
    }
}

impl TileMap {
    pub open spec fn wf(&self) -> bool {
        self@.wf()
    }

    /// A map without tiles, portals or embedded maps, whose grid grows to
    /// hold what is written to it.
    pub fn new() -> (m: TileMap)
        ensures
            m.wf(),
            m@ == MapModel::empty(),
    {
        let m = TileMap {
            fixed: false,
            width: 0,
            rows: Vec::new(),
            portals: Vec::new(),
            sub_maps: Vec::new(),
        };
        assert(m@.rows =~= Seq::empty());
        m
    }

    /// A map without portals or embedded maps whose grid has the extent
    /// `size` for good and holds `Void` everywhere; `None` exactly when
    /// `size` exceeds the size limit in either dimension.
    pub fn with_size(size: Size) -> (m: Option<TileMap>)
        ensures
            m.is_some() <==> size.width <= MAX_EXTENT && size.height <= MAX_EXTENT,
            m.is_some() ==> m.unwrap().wf() && m.unwrap()@ == MapModel::blank(size),
    {
        if size.width > MAX_EXTENT || size.height > MAX_EXTENT {
            return None;
        }
        let mut m = TileMap::new();
        m.resize(size.width, size.height);
        m.fixed = true;
        proof {
            let target = MapModel::blank(size);
            assert forall|y: int| 0 <= y < m@.rows.len() implies m@.rows[y] =~= target.rows[y] by {}
            assert(m@.rows =~= target.rows);
        }
        Some(m)
    }

    /// Whether the extent of the grid was fixed when the map was made.
    pub fn is_fixed(&self) -> (fixed: bool)
        ensures
            fixed == self@.fixed,
    {
        self.fixed
    }

    /// The extent of the grid.
    pub fn size(&self) -> (s: Size)
        requires
            self.wf(),
        ensures
            s == self@.size(),
    {
        Size { width: self.width, height: self.rows.len() as u32 }
    }

    /// The rectangle covered by the grid.
    pub fn area(&self) -> (a: Area)
        requires
            self.wf(),
        ensures
            a == self@.area(),
    {
        Area { position: Position { x: 0, y: 0 }, size: self.size() }
    }

    /// The tile at `position`, or `None` if the grid does not reach there.
    pub fn tile_type_at_local(&self, position: Position) -> (tile: Option<TileType>)
        requires
            self.wf(),
        ensures
            tile == self@.tile_at(position),
    {
        if position.x < 0 || position.y < 0 {
            return None;
        }
        let x: usize = position.x as usize;
        let y: usize = position.y as usize;
        if y >= self.rows.len() || x >= self.width as usize {
            return None;
        }
        Some(self.rows[y][x])
    }

    /// Grows the grid to `width` columns and `height` rows.
    fn resize(&mut self, width: u32, height: u32)
        requires
            old(self).wf(),
            old(self)@.width <= width <= MAX_EXTENT,
            old(self)@.rows.len() <= height <= MAX_EXTENT,
        ensures
            final(self).wf(),
            final(self)@ == old(self)@.resized(width as nat, height as nat),
    {
        let old_height: usize = self.rows.len();
        let mut y: usize = 0;
        while y < old_height
            invariant
                y <= old_height,
                old_height == old(self).rows@.len(),
                self.rows@.len() == old_height,
                self.width == old(self).width,
                self.fixed == old(self).fixed,
                self.portals == old(self).portals,
                self.sub_maps == old(self).sub_maps,
                old(self).wf(),
                old(self).width <= width,
                forall|yy: int| 0 <= yy < y ==> (#[trigger] self.rows@[yy])@.len() == width,
                forall|yy: int|
                    y <= yy < old_height ==> (#[trigger] self.rows@[yy]) == old(self).rows@[yy],
                forall|yy: int, xx: int|
                    0 <= yy < y && 0 <= xx < width ==> (#[trigger] self.rows@[yy]@[xx]) == old(
                        self,
                    )@.cell(xx, yy),
            decreases old_height - y,
        {
            assert(old(self)@.rows[y as int] == old(self).rows@[y as int]@);
            widen_row(&mut self.rows[y], width as usize);
            y = y + 1;
        }
        while self.rows.len() < height as usize
            invariant
                old_height == old(self).rows@.len(),
                old_height <= self.rows@.len() <= height,
                self.width == old(self).width,
                self.fixed == old(self).fixed,
                self.portals == old(self).portals,
                self.sub_maps == old(self).sub_maps,
                old(self).wf(),
                forall|yy: int|
                    0 <= yy < self.rows@.len() ==> (#[trigger] self.rows@[yy])@.len() == width,
                forall|yy: int, xx: int|
                    0 <= yy < self.rows@.len() && 0 <= xx < width ==> (
                    #[trigger] self.rows@[yy]@[xx]) == old(self)@.cell(xx, yy),
            decreases height - self.rows.len(),
        {
            let mut row: Vec<TileType> = Vec::new();
            widen_row(&mut row, width as usize);
            self.rows.push(row);
        }
        self.width = width;
        proof {
            let target = old(self)@.resized(width as nat, height as nat);
            assert(self@.rows.len() == target.rows.len());
            assert forall|yy: int| 0 <= yy < self@.rows.len() implies self@.rows[yy]
                =~= target.rows[yy] by {
                assert(self@.rows[yy] == self.rows@[yy]@);
            }
            assert(self@.rows =~= target.rows);
        }
    }

    /// Sets every cell of `area` that the map takes a tile at to `tile`.
    /// Unless its extent is fixed, the grid grows as far as needed to hold
    /// the storable cells of `area`.
    pub fn fill(&mut self, area: Area, tile: TileType)
        requires
            old(self).wf(),
        ensures
            final(self).wf(),
            final(self)@ == old(self)@.filled(area, tile),
    {
        let right: i64 = area.right();
        let bottom: i64 = area.bottom();
        let left: i64 = area.left();
        let top: i64 = area.top();
        let limit: i64 = MAX_EXTENT as i64;
        if area.size.width == 0 || area.size.height == 0 || right < 0 || bottom < 0 || left
            >= limit || top >= limit {
            return ;
        }
        let reach_column: u32 = if right < limit {
            right as u32
        } else {
            MAX_EXTENT - 1
        };
        let reach_row: u32 = if bottom < limit {
            bottom as u32
        } else {
            MAX_EXTENT - 1
        };
        let first_column: i64 = if left < 0 {
            0
        } else {
            left
        };
        let first_row: i64 = if top < 0 {
            0
        } else {
            top
        };
        let width: u32 = if self.fixed || self.width > reach_column {
            self.width
        } else {
            reach_column + 1
        };
        let height: u32 = if self.fixed || self.rows.len() > reach_row as usize {
            self.rows.len() as u32
        } else {
            reach_row + 1
        };
        let last_column: i64 = if (reach_column as i64) < width as i64 {
            reach_column as i64
        } else {
            width as i64 - 1
        };
        let last_row: i64 = if (reach_row as i64) < height as i64 {
            reach_row as i64
        } else {
            height as i64 - 1
        };
        self.resize(width, height);
        let ghost grown = self@;
        let ghost grown_rows = self.rows@;
        proof {
            assert forall|yy: int| 0 <= yy < height implies (#[trigger] self.rows@[yy])@.len()
                == width by {
                assert(self@.rows[yy] == self.rows@[yy]@);
            }
        }
        let mut y: i64 = first_row;
        while y <= last_row
            invariant
                0 <= first_row <= y,
                y <= last_row + 1 || y == first_row,
                0 <= first_column,
                last_row < height,
                last_column < width,
                self.width == width,
                self.fixed == old(self).fixed,
                self.rows@.len() == height,
                grown_rows.len() == height,
                self.portals@ == old(self).portals@,
                self.sub_maps@ == old(self).sub_maps@,
                forall|yy: int| 0 <= yy < height ==> (#[trigger] self.rows@[yy])@.len() == width,
                forall|yy: int| 0 <= yy < height ==> (#[trigger] grown_rows[yy])@.len() == width,
                forall|yy: int, xx: int|
                    0 <= yy < height && 0 <= xx < width ==> (#[trigger] self.rows@[yy]@[xx]) == (
                    if first_row <= yy < y && first_column <= xx <= last_column {
                        tile
                    } else {
                        grown_rows[yy]@[xx]
                    }),
            decreases last_row + 1 - y,
        {
            let mut x: i64 = first_column;
            while x <= last_column
                invariant
                    0 <= first_row <= y <= last_row,
                    0 <= first_column <= x,
                    x <= last_column + 1 || x == first_column,
                    last_row < height,
                    last_column < width,
                    self.width == width,
                    self.fixed == old(self).fixed,
                    self.rows@.len() == height,
                    grown_rows.len() == height,
                    self.portals@ == old(self).portals@,
                    self.sub_maps@ == old(self).sub_maps@,
                    forall|yy: int|
                        0 <= yy < height ==> (#[trigger] self.rows@[yy])@.len() == width,
                    forall|yy: int|
                        0 <= yy < height ==> (#[trigger] grown_rows[yy])@.len() == width,
                    forall|yy: int, xx: int|
                        0 <= yy < height && 0 <= xx < width ==> (#[trigger] self.rows@[yy]@[xx])
                            == (if (first_row <= yy < y && first_column <= xx <= last_column) || (yy
                            == y && first_column <= xx < x) {
                            tile
                        } else {
                            grown_rows[yy]@[xx]
                        }),
                decreases last_column + 1 - x,
            {
                self.rows[y as usize][x as usize] = tile;
                x = x + 1;
            }
            y = y + 1;
        }
        proof {
            let target = old(self)@.filled(area, tile);
            assert(self@.rows.len() == target.rows.len());
            assert forall|yy: int| 0 <= yy < self@.rows.len() implies self@.rows[yy]
                =~= target.rows[yy] by {
                assert(self@.rows[yy] == self.rows@[yy]@);
                assert(grown.rows[yy] == grown_rows[yy]@);
                assert forall|xx: int| 0 <= xx < width implies self.rows@[yy]@[xx]
                    == target.rows[yy][xx] by {
                    assert(grown.rows[yy][xx] == old(self)@.cell(xx, yy));
                }
            }
            assert(self@.rows =~= target.rows);
        }
    }

    /// Writes `tile` at `position`, growing the grid if it does not reach
    /// there yet and its extent is not fixed. Returns whether the tile was
    /// written: a map stores no tile at a negative coordinate or at one
    /// beyond the size limit, and a map of fixed extent none off its grid.
    pub fn tile_type_at_local_set(&mut self, position: Position, tile: TileType) -> (written: bool)
        requires
            old(self).wf(),
        ensures
            final(self).wf(),
            final(self)@ == old(self)@.with_tile(position, tile),
            written == old(self)@.takes_tile(position),
    {
        let written: bool = if self.fixed {
            self.tile_type_at_local(position).is_some()
        } else {
            0 <= position.x && position.x < 2147483647 && 0 <= position.y && position.y
                < 2147483647
        };
        self.fill(Area { position, size: Size { width: 1, height: 1 } }, tile);
        written
    }

    /// Classifies `position` as outside the grid, on its rim, or strictly
    /// inside it.
    pub fn contains_position(&self, position: Position) -> (c: Containment)
        requires
            self.wf(),
        ensures
            c == self@.area().containment_of(position),
    {
        self.area().contains_position(position)
    }

    pub fn portal_count(&self) -> (n: usize)
        ensures
            n == self@.portals.len(),
    {
        self.portals.len()
    }

    /// The portals, in the order in which they were added.
    pub fn portals(&self) -> (portals: &Vec<Portal>)
        ensures
            portals@ == self@.portals,
    {
        &self.portals
    }

    pub fn sub_map_count(&self) -> (n: usize)
        ensures
            n == self@.sub_maps.len(),
    {
        self.sub_maps.len()
    }

    /// The embedded maps, in the order in which they were added.
    pub fn sub_maps(&self) -> (sub_maps: &Vec<SubMapRef>)
        ensures
            sub_maps@ == self@.sub_maps,
    {
        &self.sub_maps
    }

    /// Counts the cells that hold `tile`.
    pub fn count_tiles(&self, tile: TileType) -> (n: u64)
        requires
            self.wf(),
        ensures
            n == self@.count(tile),
    {
        let mut n: u64 = 0;
        let mut y: usize = 0;
        while y < self.rows.len()
            invariant
                self.wf(),
                y <= self.rows@.len(),
                n == count_in_rows(self@.rows.take(y as int), tile),
                n <= y * MAX_EXTENT,
            decreases self.rows.len() - y,
        {
            let row = &self.rows[y];
            let mut in_row: u32 = 0;
            let mut x: usize = 0;
            assert(self@.rows[y as int] == row@);
            while x < row.len()
                invariant
                    x <= row@.len(),
                    row@.len() <= MAX_EXTENT,
                    in_row == count_in_row(row@.take(x as int), tile),
                    in_row <= x,
                decreases row.len() - x,
            {
                assert(row@.take(x + 1).drop_last() =~= row@.take(x as int));
                if row[x] == tile {
                    in_row = in_row + 1;
                }
                x = x + 1;
            }
            assert(row@.take(row@.len() as int) =~= row@);
            assert(self@.rows.take(y + 1).drop_last() =~= self@.rows.take(y as int));
            n = n + in_row as u64;
            y = y + 1;
        }
        assert(self@.rows.take(self@.rows.len() as int) =~= self@.rows);
        n
    }

    /// Adds `portal` and marks its tile as a portal tile. A portal has to sit
    /// on a cell of the grid: for a position outside the grid nothing
    /// changes and the result is `false`.
    pub(crate) fn add_portal(&mut self, portal: Portal) -> (added: bool)
        requires
            old(self).wf(),
        ensures
            final(self).wf(),
            added == old(self)@.in_bounds(portal.local_position),
            added ==> final(self)@ == old(self)@.with_portal(portal),
            !added ==> final(self)@ == old(self)@,
    {
        if self.tile_type_at_local(portal.local_position).is_none() {
            return false;
        }
        self.tile_type_at_local_set(portal.local_position, TileType::Portal);
        self.portals.push(portal);
        true
    }

    /// Changes where portal `index` arrives on its target.
    pub(crate) fn set_position_on_target(&mut self, index: usize, position: Position)
        requires
            old(self).wf(),
            index < old(self)@.portals.len(),
        ensures
            final(self).wf(),
            final(self)@ == old(self)@.with_position_on_target(index as int, position),
    {
        let portal: Portal = self.portals[index];
        self.portals.set(index, Portal { position_on_target: position, ..portal });
    }

    /// Embeds `sub_map`.
    pub(crate) fn add_sub_map(&mut self, sub_map: SubMapRef)
        requires
            old(self).wf(),
        ensures
            final(self).wf(),
            final(self)@ == old(self)@.with_sub_map(sub_map),
    {
        self.sub_maps.push(sub_map);
    }
}

/// Writing a tile inside the grid keeps the extent of the grid, and changes
/// that one cell only.
pub proof fn lemma_with_tile_inside(map: MapModel, position: Position, tile: TileType)
    requires
        map.wf(),
        map.in_bounds(position),
    ensures
        map.with_tile(position, tile).wf(),
        map.with_tile(position, tile).size() == map.size(),
        map.with_tile(position, tile).fixed == map.fixed,
        map.with_tile(position, tile).width == map.width,
        map.with_tile(position, tile).rows.len() == map.rows.len(),
        map.with_tile(position, tile).portals == map.portals,
        map.with_tile(position, tile).sub_maps == map.sub_maps,
        forall|x: int, y: int|
            map.covers(x, y) ==> #[trigger] map.with_tile(position, tile).cell(x, y) == if x
                == position.x && y == position.y {
                tile
            } else {
                map.cell(x, y)
            },
{
}

/// Whether `id` occurs in `ids`.
pub fn contains_id(ids: &Vec<MapId>, id: MapId) -> (found: bool)
    ensures
        found == ids@.contains(id),
{
    let mut i: usize = 0;
    while i < ids.len()
        invariant
            i <= ids@.len(),
            forall|k: int| 0 <= k < i ==> ids@[k] != id,
        decreases ids.len() - i,
    {
        if ids[i] == id {
            return true;
        }
        i = i + 1;
    }
    false
}

} // verus!
