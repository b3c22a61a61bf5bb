use dungen_minion::edge_portals_generator::{edge_tile_at, facing_on_edge};
use dungen_minion::geometry::{Area, CardinalDirection, Position, Size};
use dungen_minion::{
    CountRange, DoesDunGen, EdgePortalsGenerator, MapId, MapRegistry, TileMap, TileType,
};

fn room(width: u32, height: u32) -> (MapRegistry, MapId) {
    let mut maps = MapRegistry::new();
    let id = maps.insert(TileMap::new());
    maps.fill(id, Area::from_size(Size::new(width, height)), TileType::Floor);
    (maps, id)
}

#[test]
fn rim_tiles_are_numbered_along_the_top_down_the_sides_and_along_the_bottom() {
    let size = Size::new(5, 4);
    let expected = [
        Position::new(1, 0),
        Position::new(2, 0),
        Position::new(3, 0),
        Position::new(0, 1),
        Position::new(4, 1),
        Position::new(0, 2),
        Position::new(4, 2),
        Position::new(1, 3),
        Position::new(2, 3),
        Position::new(3, 3),
    ];
    for (index, position) in expected.iter().enumerate() {
        assert_eq!(edge_tile_at(size, index as u64), Some(*position));
    }
    assert_eq!(edge_tile_at(size, 10), None);
    assert_eq!(edge_tile_at(size, u64::MAX), None);
}

#[test]
fn the_smallest_room_with_rim_tiles_has_four() {
    let size = Size::new(3, 3);
    assert_eq!(edge_tile_at(size, 0), Some(Position::new(1, 0)));
    assert_eq!(edge_tile_at(size, 1), Some(Position::new(0, 1)));
    assert_eq!(edge_tile_at(size, 2), Some(Position::new(2, 1)));
    assert_eq!(edge_tile_at(size, 3), Some(Position::new(1, 2)));
    assert_eq!(edge_tile_at(size, 4), None);
}

#[test]
fn maps_that_are_too_small_or_too_large_have_no_rim_tiles() {
    assert_eq!(edge_tile_at(Size::new(2, 10), 0), None);
    assert_eq!(edge_tile_at(Size::new(10, 2), 0), None);
    assert_eq!(edge_tile_at(Size::zero(), 0), None);
    assert_eq!(edge_tile_at(Size::new(u32::MAX, 10), 0), None);
    assert_eq!(edge_tile_at(Size::new(10, u32::MAX), 0), None);
}

#[test]
fn a_portal_on_the_rim_faces_into_the_map() {
    let size = Size::new(5, 4);
    assert_eq!(facing_on_edge(size, Position::new(0, 2)), CardinalDirection::East);
    assert_eq!(facing_on_edge(size, Position::new(4, 1)), CardinalDirection::West);
    assert_eq!(facing_on_edge(size, Position::new(2, 0)), CardinalDirection::South);
    assert_eq!(facing_on_edge(size, Position::new(3, 3)), CardinalDirection::North);
}

#[test]
fn edge_portals_adds_the_number_of_portals_asked_for() {
    for _ in 0..50 {
        let (mut maps, map_id) = room(8, 6);
        let mut portals = EdgePortalsGenerator::new(5usize, TileMap::new);
        portals.dun_gen_map(&mut maps, map_id);
        let map = maps.read(map_id);
        assert_eq!(map.size(), Size::new(8, 6));
        assert_eq!(map.portal_count(), 5);
        assert_eq!(maps.len(), 6);
        for (k, portal) in map.portals().iter().enumerate() {
            let p = portal.local_position();
            let on_side = p.x() == 0 || p.x() == 7;
            let on_end = p.y() == 0 || p.y() == 5;
            assert!(on_side != on_end, "a rim tile that is no corner");
            assert!(p.x() >= 0 && p.x() <= 7 && p.y() >= 0 && p.y() <= 5);
            assert_eq!(portal.facing(), facing_on_edge(Size::new(8, 6), p));
            assert_eq!(portal.position_on_target(), Position::zero());
            assert_eq!(portal.target(), MapId { index: k + 1 });
            assert_eq!(map.tile_type_at_local(p), Some(TileType::Portal));
            assert_eq!(maps.read(portal.target()).size(), Size::zero());
            assert_eq!(maps.read(portal.target()).portal_count(), 0);
        }
    }
}

#[test]
fn edge_portals_draws_each_portal_from_one_tile_fewer() {
    for _ in 0..50 {
        let (mut maps, map_id) = room(5, 4);
        let mut portals = EdgePortalsGenerator::new(10usize, TileMap::new);
        portals.dun_gen_map(&mut maps, map_id);
        let map = maps.read(map_id);
        assert_eq!(map.portal_count(), 10);
        for (round, portal) in map.portals().iter().enumerate() {
            let allowed: Vec<Position> = (0..(10 - round) as u64)
                .map(|index| edge_tile_at(Size::new(5, 4), index).unwrap())
                .collect();
            assert!(allowed.contains(&portal.local_position()));
        }
        assert_eq!(map.portals()[9].local_position(), Position::new(1, 0));
    }
}

#[test]
fn edge_portals_adds_no_more_portals_than_there_are_rim_tiles() {
    let (mut maps, map_id) = room(3, 3);
    let mut portals = EdgePortalsGenerator::new(10usize, TileMap::new);
    portals.dun_gen_map(&mut maps, map_id);
    assert_eq!(maps.read(map_id).portal_count(), 4);
    assert_eq!(maps.len(), 5);
}

#[test]
fn edge_portals_leaves_small_maps_alone() {
    for (width, height) in [(0u32, 0u32), (2, 8), (8, 2), (1, 1)] {
        let (mut maps, map_id) = room(width, height);
        let mut portals = EdgePortalsGenerator::new(5usize, TileMap::new);
        portals.dun_gen_map(&mut maps, map_id);
        assert_eq!(maps.read(map_id).portal_count(), 0);
        assert_eq!(maps.len(), 1);
    }
}

#[test]
fn edge_portals_with_a_count_of_zero_adds_nothing() {
    let (mut maps, map_id) = room(8, 6);
    let mut portals = EdgePortalsGenerator::new(0usize, TileMap::new);
    portals.dun_gen_map(&mut maps, map_id);
    assert_eq!(maps.read(map_id).portal_count(), 0);
    assert_eq!(maps.len(), 1);
}

#[test]
fn edge_portals_takes_its_count_from_a_range() {
    for _ in 0..50 {
        let (mut maps, map_id) = room(8, 6);
        let mut portals = EdgePortalsGenerator::new(CountRange::new(2, 5), TileMap::new);
        portals.dun_gen_map(&mut maps, map_id);
        let count = maps.read(map_id).portal_count();
        assert!(count >= 2 && count <= 5);
        assert_eq!(maps.len(), count + 1);
    }
}

#[test]
fn edge_portals_uses_the_maps_it_is_given() {
    let (mut maps, map_id) = room(8, 6);
    let provider = || {
        let mut map = TileMap::new();
        map.fill(Area::from_size(Size::new(3, 10)), TileType::Floor);
        map
    };
    let mut portals = EdgePortalsGenerator::new(3usize, provider);
    portals.dun_gen_map(&mut maps, map_id);
    for portal in maps.read(map_id).portals() {
        assert_eq!(maps.read(portal.target()).size(), Size::new(3, 10));
    }
}

#[test]
fn the_draws_are_not_all_the_same() {
    let (mut maps, map_id) = room(200, 200);
    let mut portals = EdgePortalsGenerator::new(64usize, TileMap::new);
    portals.dun_gen_map(&mut maps, map_id);
    let first = maps.read(map_id).portals()[0].local_position();
    assert!(maps.read(map_id).portals().iter().any(|portal| portal.local_position() != first));
}
