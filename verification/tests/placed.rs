use dungen_minion::edge_portals_dun_gen::place_on_edge;
use dungen_minion::geometry::{Area, CardinalDirection, Position, Size};
use dungen_minion::traverse_portals_dun_gen::apply_placed_in_turn;
use dungen_minion::traverse_portals_generator::portal_targets;
use dungen_minion::walled_room_dun_gen::{draw_edges, strip_at};
use dungen_minion::{
    DoesDunGen, DoesDunGenPlaced, DoesDunGenPlacedStatic, DoesDunGenStatic, DunGen, DunGenPlaced,
    EdgePortalsDunGen, EmptyRoomDunGen, FillTilesDunGen, IfMapDunGen, MapId, MapRegistry,
    SequentialDunGen, TileMap, TileType, TraversePortalsDunGen, TraverseThisAndPortalsDunGen,
    WalledRoomDunGen,
};

fn one_map() -> (MapRegistry, MapId) {
    let mut maps = MapRegistry::new();
    let id = maps.insert(TileMap::new());
    (maps, id)
}

fn rooms(count: usize) -> (MapRegistry, Vec<MapId>) {
    let mut maps = MapRegistry::new();
    let mut ids = Vec::new();
    for _ in 0..count {
        let id = maps.insert(TileMap::new());
        maps.fill(id, Area::from_size(Size::new(5, 5)), TileType::Void);
        ids.push(id);
    }
    (maps, ids)
}

fn link(maps: &mut MapRegistry, from: MapId, at: i32, to: MapId) {
    assert!(maps.add_portal(from, Position::new(at, 0), CardinalDirection::South, Position::zero(), to));
}

fn marked(maps: &MapRegistry, id: MapId) -> bool {
    maps.read(id).tile_type_at_local(Position::new(4, 4)) == Some(TileType::Floor)
}

fn marker() -> FillTilesDunGen<Area> {
    FillTilesDunGen::new(Area::new(Position::new(4, 4), Size::new(1, 1)), TileType::Floor)
}

#[test]
fn a_placed_pipeline_keeps_its_root_and_position() {
    let (maps, root) = one_map();
    let mut dun_gen = DunGenPlaced::new(maps, Position::new(3, -4), root);
    assert_eq!(dun_gen.position(), Position::new(3, -4));
    assert_eq!(dun_gen.build(), root);
    assert_eq!(dun_gen.maps().len(), 1);
    let built = dun_gen
        .gen_with(EmptyRoomDunGen::new(Size::new(8, 6)))
        .gen::<WalledRoomDunGen<Size>>()
        .build();
    assert_eq!(built, root);
    assert_eq!(dun_gen.position(), Position::new(3, -4));
    let maps = dun_gen.into_maps();
    let map = maps.read(root);
    assert_eq!(map.size(), Size::new(8, 6));
    assert_eq!(map.tile_type_at_local(Position::new(0, 0)), Some(TileType::Wall));
    assert_eq!(map.tile_type_at_local(Position::new(1, 1)), Some(TileType::Floor));
    assert_eq!(map.count_tiles(TileType::Wall), 2 * 8 + 2 * 6 - 4);
    assert_eq!(map.portal_count(), 0);
}

#[test]
fn fill_tiles_fills_the_shape_and_nothing_else() {
    let (mut maps, id) = one_map();
    let mut fill = FillTilesDunGen::new(
        Area::new(Position::new(1, 1), Size::new(2, 3)),
        TileType::Wall,
    );
    fill.dun_gen_map(&mut maps, id);
    assert_eq!(maps.read(id).size(), Size::new(3, 4));
    assert_eq!(maps.read(id).count_tiles(TileType::Wall), 6);
    fill.dun_gen_placed_map(&mut maps, id);
    assert_eq!(maps.read(id).count_tiles(TileType::Wall), 6);
}

#[test]
fn fill_tiles_with_an_empty_shape_changes_nothing() {
    let (mut maps, id) = one_map();
    maps.fill(id, Area::from_size(Size::new(3, 3)), TileType::Wall);
    let mut fill = FillTilesDunGen::new(Size::zero(), TileType::Floor);
    fill.dun_gen_map(&mut maps, id);
    fill.dun_gen_placed_map(&mut maps, id);
    assert_eq!(maps.read(id).count_tiles(TileType::Wall), 9);
}

#[test]
fn empty_room_without_an_instance_floors_the_map_as_it_is() {
    let (mut maps, id) = one_map();
    maps.fill(id, Area::from_size(Size::new(4, 3)), TileType::Wall);
    EmptyRoomDunGen::<Size>::dun_gen_map_static(&mut maps, id);
    assert_eq!(maps.read(id).size(), Size::new(4, 3));
    assert_eq!(maps.read(id).count_tiles(TileType::Floor), 12);
    maps.fill(id, Area::from_size(Size::new(5, 3)), TileType::Wall);
    EmptyRoomDunGen::<Size>::dun_gen_placed_map_static(&mut maps, id);
    assert_eq!(maps.read(id).count_tiles(TileType::Floor), 15);
}

#[test]
fn static_generators_run_on_a_pipeline() {
    let (mut maps, id) = one_map();
    maps.fill(id, Area::from_size(Size::new(4, 3)), TileType::Floor);
    let mut dun_gen = DunGen::new(maps, id);
    WalledRoomDunGen::<Size>::dun_gen_static(&mut dun_gen);
    assert_eq!(dun_gen.maps().read(id).count_tiles(TileType::Wall), 10);
    let mut placed = DunGenPlaced::new(dun_gen.into_maps(), Position::zero(), id);
    EmptyRoomDunGen::<Size>::dun_gen_placed_static(&mut placed);
    assert_eq!(placed.maps().read(id).count_tiles(TileType::Floor), 12);
}

#[test]
fn strips_are_thin_rectangles() {
    assert_eq!(strip_at(2, 0, 5, 1), Area::new(Position::new(2, 0), Size::new(5, 1)));
    assert_eq!(strip_at(-3, 7, 1, 4), Area::new(Position::new(-3, 7), Size::new(1, 4)));
    assert_eq!(strip_at(i32::MAX as i64 + 1, 0, 5, 1), Area::new(Position::zero(), Size::zero()));
    assert_eq!(strip_at(0, i32::MIN as i64 - 1, 5, 1), Area::new(Position::zero(), Size::zero()));
}

#[test]
fn edges_are_drawn_along_row_and_column_zero_and_the_far_sides() {
    let (mut maps, id) = one_map();
    draw_edges(&mut maps, id, Area::from_size(Size::new(5, 4)));
    let map = maps.read(id);
    assert_eq!(map.size(), Size::new(5, 4));
    assert_eq!(map.count_tiles(TileType::Wall), 2 * 5 + 2 * 4 - 4);
    assert_eq!(map.count_tiles(TileType::Void), 3 * 2);
    assert_eq!(map.tile_type_at_local(Position::new(1, 1)), Some(TileType::Void));
}

#[test]
fn edges_of_a_shape_away_from_the_origin() {
    let (mut maps, id) = one_map();
    draw_edges(&mut maps, id, Area::new(Position::new(2, 1), Size::new(3, 3)));
    let map = maps.read(id);
    assert_eq!(map.size(), Size::new(5, 4));
    for y in 0..4 {
        for x in 0..5 {
            let top = y == 0 && (2..=4).contains(&x);
            let bottom = y == 3 && (2..=4).contains(&x);
            let left = x == 0 && (1..=3).contains(&y);
            let right = x == 4 && (1..=3).contains(&y);
            let expected = if top || bottom || left || right {
                TileType::Wall
            } else {
                TileType::Void
            };
            assert_eq!(map.tile_type_at_local(Position::new(x, y)), Some(expected));
        }
    }
}

#[test]
fn edges_of_an_empty_shape_change_nothing() {
    let (mut maps, id) = one_map();
    draw_edges(&mut maps, id, Area::new(Position::new(2, 1), Size::new(0, 3)));
    draw_edges(&mut maps, id, Area::new(Position::new(2, 1), Size::new(3, 0)));
    assert_eq!(maps.read(id).size(), Size::zero());
}

#[test]
fn walled_room_draws_over_what_is_there() {
    let (mut maps, id) = one_map();
    let other = maps.insert(TileMap::new());
    maps.fill(id, Area::from_size(Size::new(4, 4)), TileType::Floor);
    maps.add_portal(id, Position::new(0, 1), CardinalDirection::East, Position::zero(), other);
    let mut walls = WalledRoomDunGen::new(Size::new(4, 4));
    walls.dun_gen_placed_map(&mut maps, id);
    assert_eq!(maps.read(id).tile_type_at_local(Position::new(0, 1)), Some(TileType::Wall));
    assert_eq!(maps.read(id).count_tiles(TileType::Wall), 12);
    assert_eq!(maps.read(id).count_tiles(TileType::Floor), 4);
    assert_eq!(maps.read(id).portal_count(), 1);
}

#[test]
fn a_pick_names_a_rim_tile_and_a_facing() {
    let size = Size::new(8, 6);
    assert_eq!(
        place_on_edge(size, true, true, 3),
        Some((Position::new(0, 3), CardinalDirection::East))
    );
    assert_eq!(
        place_on_edge(size, true, false, 3),
        Some((Position::new(7, 3), CardinalDirection::West))
    );
    assert_eq!(
        place_on_edge(size, false, true, 3),
        Some((Position::new(3, 0), CardinalDirection::South))
    );
    assert_eq!(
        place_on_edge(size, false, false, 3),
        Some((Position::new(3, 5), CardinalDirection::North))
    );
}

#[test]
fn a_pick_never_names_a_corner() {
    let size = Size::new(8, 6);
    assert_eq!(place_on_edge(size, true, true, 0), None);
    assert_eq!(place_on_edge(size, true, true, 5), None);
    assert_eq!(
        place_on_edge(size, true, true, 4),
        Some((Position::new(0, 4), CardinalDirection::East))
    );
    assert_eq!(place_on_edge(size, false, false, 7), None);
    assert_eq!(
        place_on_edge(size, false, false, 6),
        Some((Position::new(6, 5), CardinalDirection::North))
    );
    assert_eq!(place_on_edge(Size::new(2, 6), true, true, 1), None);
    assert_eq!(place_on_edge(Size::new(8, 2), false, true, 1), None);
    assert_eq!(place_on_edge(Size::new(u32::MAX, 6), true, true, 1), None);
}

#[test]
fn edge_portals_adds_the_count_given() {
    for _ in 0..50 {
        let (mut maps, id) = one_map();
        maps.fill(id, Area::from_size(Size::new(12, 8)), TileType::Floor);
        let mut portals = EdgePortalsDunGen::new(5, TileMap::new);
        portals.dun_gen_placed_map(&mut maps, id);
        let map = maps.read(id);
        assert_eq!(map.portal_count(), 5);
        assert_eq!(maps.len(), 6);
        for (k, portal) in map.portals().iter().enumerate() {
            let p = portal.local_position();
            let expected = if p.x() == 0 {
                CardinalDirection::East
            } else if p.x() == 11 {
                CardinalDirection::West
            } else if p.y() == 0 {
                CardinalDirection::South
            } else {
                assert_eq!(p.y(), 7);
                CardinalDirection::North
            };
            assert_eq!(portal.facing(), expected);
            let on_side = p.x() == 0 || p.x() == 11;
            let on_end = p.y() == 0 || p.y() == 7;
            assert!(on_side != on_end);
            assert_eq!(portal.target(), MapId { index: k + 1 });
            assert_eq!(portal.position_on_target(), Position::zero());
            assert_eq!(map.tile_type_at_local(p), Some(TileType::Portal));
        }
    }
}

#[test]
fn edge_portals_uses_all_four_edges() {
    let (mut maps, id) = one_map();
    maps.fill(id, Area::from_size(Size::new(12, 8)), TileType::Floor);
    let mut portals = EdgePortalsDunGen::new(400, TileMap::new);
    portals.dun_gen_map(&mut maps, id);
    let facings: Vec<CardinalDirection> =
        maps.read(id).portals().iter().map(|portal| portal.facing()).collect();
    assert_eq!(facings.len(), 400);
    for facing in [
        CardinalDirection::North,
        CardinalDirection::East,
        CardinalDirection::South,
        CardinalDirection::West,
    ] {
        assert!(facings.contains(&facing));
    }
}

#[test]
fn edge_portals_on_placed_maps_leaves_small_maps_alone() {
    let (mut maps, id) = one_map();
    maps.fill(id, Area::from_size(Size::new(2, 8)), TileType::Floor);
    let mut portals = EdgePortalsDunGen::new(5, TileMap::new);
    portals.dun_gen_map(&mut maps, id);
    portals.dun_gen_placed_map(&mut maps, id);
    assert_eq!(maps.read(id).portal_count(), 0);
    assert_eq!(maps.len(), 1);
}

#[test]
fn sequential_runs_both_on_maps_and_on_placed_maps() {
    let (mut maps, id) = one_map();
    let mut sequence = SequentialDunGen::new(
        EmptyRoomDunGen::new(Size::new(4, 4)),
        WalledRoomDunGen::new(Size::new(4, 4)),
    );
    sequence.dun_gen_map(&mut maps, id);
    assert_eq!(maps.read(id).count_tiles(TileType::Wall), 12);
    assert_eq!(maps.read(id).count_tiles(TileType::Floor), 4);
    let other = maps.insert(TileMap::new());
    sequence.dun_gen_placed_map(&mut maps, other);
    assert_eq!(maps.read(other).count_tiles(TileType::Wall), 12);
    assert_eq!(maps.read(other).count_tiles(TileType::Floor), 4);
}

#[test]
fn each_kind_of_map_has_its_own_condition() {
    let (mut maps, id) = one_map();
    let mut generator = IfMapDunGen::new(
        |_: &MapRegistry, _: MapId| false,
        |maps: &MapRegistry, map_id: MapId| maps.read(map_id).size().is_zero(),
        EmptyRoomDunGen::new(Size::new(3, 10)),
    );
    generator.dun_gen_map(&mut maps, id);
    assert_eq!(maps.read(id).size(), Size::zero());
    generator.dun_gen_placed_map(&mut maps, id);
    assert_eq!(maps.read(id).size(), Size::new(3, 10));
    maps.tile_type_at_local_set(id, Position::new(0, 0), TileType::Wall);
    generator.dun_gen_placed_map(&mut maps, id);
    assert_eq!(maps.read(id).tile_type_at_local(Position::new(0, 0)), Some(TileType::Wall));
}

#[test]
fn apply_placed_in_turn_applies_to_each_target() {
    let (mut maps, ids) = rooms(3);
    let mut generator = marker();
    apply_placed_in_turn(&mut generator, &mut maps, &vec![ids[2], ids[0]]);
    assert!(marked(&maps, ids[0]));
    assert!(!marked(&maps, ids[1]));
    assert!(marked(&maps, ids[2]));
}

#[test]
fn traverse_portals_on_placed_maps_goes_one_hop_only() {
    let (mut maps, ids) = rooms(4);
    link(&mut maps, ids[0], 1, ids[1]);
    link(&mut maps, ids[0], 2, ids[2]);
    link(&mut maps, ids[1], 1, ids[3]);
    let mut traverse = TraversePortalsDunGen::new(marker());
    traverse.dun_gen_map(&mut maps, ids[0]);
    assert!(!marked(&maps, ids[0]));
    assert!(marked(&maps, ids[1]));
    assert!(marked(&maps, ids[2]));
    assert!(!marked(&maps, ids[3]));
    traverse.dun_gen_placed_map(&mut maps, ids[1]);
    assert!(marked(&maps, ids[3]));
}

#[test]
fn traverse_this_and_portals_runs_on_the_map_and_on_its_targets() {
    let (mut maps, ids) = rooms(4);
    link(&mut maps, ids[0], 1, ids[1]);
    link(&mut maps, ids[1], 1, ids[2]);
    link(&mut maps, ids[2], 1, ids[3]);
    let mut traverse = TraverseThisAndPortalsDunGen::new(marker());
    traverse.dun_gen_map(&mut maps, ids[0]);
    assert!(marked(&maps, ids[0]));
    assert!(marked(&maps, ids[1]));
    assert!(!marked(&maps, ids[2]));
    traverse.dun_gen_placed_map(&mut maps, ids[2]);
    assert!(marked(&maps, ids[2]));
    assert!(marked(&maps, ids[3]));
}

#[test]
fn leaves_are_the_maps_without_portals() {
    let (mut maps, ids) = rooms(6);
    link(&mut maps, ids[0], 1, ids[1]);
    link(&mut maps, ids[0], 2, ids[2]);
    link(&mut maps, ids[1], 1, ids[3]);
    link(&mut maps, ids[1], 2, ids[4]);
    let mut generator = marker();
    let mut dun_gen = DunGenPlaced::new(maps, Position::zero(), ids[0]);
    dun_gen.gen_leaf_portals_with(&mut generator);
    let maps = dun_gen.into_maps();
    let leaves: Vec<bool> = ids.iter().map(|id| marked(&maps, *id)).collect();
    assert_eq!(leaves, vec![false, false, true, true, true, false]);
}

#[test]
fn a_root_without_portals_is_a_leaf() {
    let (maps, ids) = rooms(2);
    let mut generator = marker();
    let mut dun_gen = DunGenPlaced::new(maps, Position::zero(), ids[0]);
    dun_gen.gen_leaf_portals_with(&mut generator);
    assert!(marked(dun_gen.maps(), ids[0]));
    assert!(!marked(dun_gen.maps(), ids[1]));
}

#[test]
fn leaves_are_reached_depth_first_in_the_order_of_the_portals() {
    let (mut maps, ids) = rooms(6);
    link(&mut maps, ids[0], 1, ids[1]);
    link(&mut maps, ids[0], 2, ids[2]);
    link(&mut maps, ids[1], 1, ids[3]);
    link(&mut maps, ids[1], 2, ids[4]);
    let mut generator = EdgePortalsDunGen::new(1, TileMap::new);
    DunGenPlaced::gen_leaf_portals_with_impl(&mut maps, ids[0], &mut generator);
    assert_eq!(portal_targets(&maps, ids[3]), vec![MapId { index: 6 }]);
    assert_eq!(portal_targets(&maps, ids[4]), vec![MapId { index: 7 }]);
    assert_eq!(portal_targets(&maps, ids[2]), vec![MapId { index: 8 }]);
    assert_eq!(portal_targets(&maps, ids[5]), vec![]);
    assert_eq!(maps.len(), 9);
    for index in 6..9 {
        assert_eq!(maps.read(MapId { index }).portal_count(), 0);
    }
}

#[test]
fn a_walk_to_the_leaves_of_a_cycle_ends() {
    let (mut maps, ids) = rooms(4);
    link(&mut maps, ids[0], 1, ids[1]);
    link(&mut maps, ids[1], 1, ids[2]);
    link(&mut maps, ids[2], 1, ids[0]);
    link(&mut maps, ids[2], 2, ids[3]);
    link(&mut maps, ids[1], 2, ids[3]);
    let mut dun_gen = DunGenPlaced::new(maps, Position::zero(), ids[0]);
    dun_gen.gen_leaf_portals_static::<EmptyRoomDunGen<Size>>();
    let maps = dun_gen.into_maps();
    assert_eq!(maps.read(ids[3]).count_tiles(TileType::Floor), 25);
    assert_eq!(maps.read(ids[0]).count_tiles(TileType::Floor), 0);
    assert_eq!(maps.read(ids[1]).count_tiles(TileType::Floor), 0);
    assert_eq!(maps.read(ids[2]).count_tiles(TileType::Floor), 0);
}

#[test]
fn rooms_at_the_ends_of_portals_are_furnished() {
    for _ in 0..20 {
        let (maps, root) = one_map();
        let mut dun_gen = DunGenPlaced::new(maps, Position::zero(), root);
        dun_gen
            .gen_with(EmptyRoomDunGen::new(Size::new(12, 8)))
            .gen::<WalledRoomDunGen<Size>>()
            .gen_leaf_portals_with(&mut EdgePortalsDunGen::new(5, TileMap::new))
            .gen_leaf_portals_with(&mut EmptyRoomDunGen::new(Size::new(3, 10)))
            .gen_leaf_portals_static::<WalledRoomDunGen<Size>>();
        let maps = dun_gen.into_maps();
        let map = maps.read(root);
        assert_eq!(map.size(), Size::new(12, 8));
        assert_eq!(map.portal_count(), 5);
        for portal in map.portals() {
            let target = maps.read(portal.target());
            assert_eq!(target.size(), Size::new(3, 10));
            assert_eq!(target.tile_type_at_local(Position::new(0, 0)), Some(TileType::Wall));
            assert_eq!(target.tile_type_at_local(Position::new(1, 1)), Some(TileType::Floor));
        }
    }
}
