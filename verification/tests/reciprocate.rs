use dungen_minion::geometry::{Area, CardinalDirection, Position, Size};
use dungen_minion::reciprocate_portals_generator::{
    add_return_portal, find_return_portal, return_position_on_edge,
};
use dungen_minion::{
    DoesDunGen, DunGen, EdgePortalsGenerator, EmptyRoomGenerator, MapId, MapRegistry, Portal,
    ReciprocatePortalsGenerator, SequentialGenerator, TileMap, TileType,
    TraversePortalsGenerator, TraverseThisAndPortalsGenerator, WalledRoomGenerator,
};

fn room(maps: &mut MapRegistry, width: u32, height: u32) -> MapId {
    let id = maps.insert(TileMap::new());
    maps.fill(id, Area::from_size(Size::new(width, height)), TileType::Floor);
    id
}

fn portals_of(maps: &MapRegistry, id: MapId) -> Vec<Portal> {
    maps.read(id).portals().clone()
}

#[test]
fn the_return_portal_sits_on_the_edge_named_by_the_facing() {
    let size = Size::new(8, 6);
    assert_eq!(
        return_position_on_edge(size, CardinalDirection::North, 3),
        Some(Position::new(3, 0))
    );
    assert_eq!(
        return_position_on_edge(size, CardinalDirection::East, 3),
        Some(Position::new(7, 3))
    );
    assert_eq!(
        return_position_on_edge(size, CardinalDirection::South, 3),
        Some(Position::new(3, 5))
    );
    assert_eq!(
        return_position_on_edge(size, CardinalDirection::West, 3),
        Some(Position::new(0, 3))
    );
}

#[test]
fn the_return_portal_is_never_on_a_corner() {
    let size = Size::new(8, 6);
    assert_eq!(return_position_on_edge(size, CardinalDirection::North, 0), None);
    assert_eq!(return_position_on_edge(size, CardinalDirection::North, 7), None);
    assert_eq!(
        return_position_on_edge(size, CardinalDirection::North, 6),
        Some(Position::new(6, 0))
    );
    assert_eq!(return_position_on_edge(size, CardinalDirection::East, 5), None);
    assert_eq!(
        return_position_on_edge(size, CardinalDirection::East, 4),
        Some(Position::new(7, 4))
    );
    assert_eq!(
        return_position_on_edge(size, CardinalDirection::West, 1),
        Some(Position::new(0, 1))
    );
}

#[test]
fn a_map_that_is_too_small_has_no_place_for_a_return_portal() {
    assert_eq!(return_position_on_edge(Size::new(2, 6), CardinalDirection::North, 1), None);
    assert_eq!(return_position_on_edge(Size::new(8, 2), CardinalDirection::East, 1), None);
    assert_eq!(return_position_on_edge(Size::zero(), CardinalDirection::West, 1), None);
    assert_eq!(
        return_position_on_edge(Size::new(u32::MAX, 6), CardinalDirection::North, 1),
        None
    );
}

#[test]
fn add_return_portal_links_both_ways() {
    let mut maps = MapRegistry::new();
    let a = room(&mut maps, 12, 8);
    let b = room(&mut maps, 8, 6);
    maps.add_portal(a, Position::new(0, 3), CardinalDirection::East, Position::zero(), b);
    let portal = portals_of(&maps, a)[0];
    assert!(!find_return_portal(&maps, &portal));
    assert!(add_return_portal(&mut maps, a, 0, 2));
    let portal = portals_of(&maps, a)[0];
    let back = portals_of(&maps, b);
    assert_eq!(back.len(), 1);
    assert_eq!(
        back[0],
        Portal {
            local_position: Position::new(7, 2),
            facing: CardinalDirection::West,
            position_on_target: Position::new(0, 3),
            target: a,
        }
    );
    assert_eq!(
        portal,
        Portal {
            local_position: Position::new(0, 3),
            facing: CardinalDirection::East,
            position_on_target: Position::new(7, 2),
            target: b,
        }
    );
    assert_eq!(maps.read(b).tile_type_at_local(Position::new(7, 2)), Some(TileType::Portal));
    assert!(find_return_portal(&maps, &portal));
    assert!(find_return_portal(&maps, &back[0]));
}

#[test]
fn add_return_portal_declines_a_draw_off_the_edge() {
    let mut maps = MapRegistry::new();
    let a = room(&mut maps, 12, 8);
    let b = room(&mut maps, 8, 6);
    maps.add_portal(a, Position::new(0, 3), CardinalDirection::East, Position::zero(), b);
    assert!(!add_return_portal(&mut maps, a, 0, 0));
    assert!(!add_return_portal(&mut maps, a, 0, 5));
    assert_eq!(maps.read(b).portal_count(), 0);
    assert_eq!(portals_of(&maps, a)[0].position_on_target(), Position::zero());
}

#[test]
fn add_return_portal_declines_a_target_that_is_too_small() {
    let mut maps = MapRegistry::new();
    let a = room(&mut maps, 12, 8);
    let b = room(&mut maps, 2, 6);
    maps.add_portal(a, Position::new(0, 3), CardinalDirection::East, Position::zero(), b);
    assert!(!add_return_portal(&mut maps, a, 0, 1));
    assert_eq!(maps.read(b).portal_count(), 0);
}

#[test]
fn reciprocation_gives_a_one_way_portal_its_way_back() {
    for _ in 0..50 {
        let mut maps = MapRegistry::new();
        let a = room(&mut maps, 12, 8);
        let b = room(&mut maps, 8, 6);
        maps.add_portal(a, Position::new(4, 0), CardinalDirection::South, Position::zero(), b);
        let mut reciprocate = ReciprocatePortalsGenerator::new();
        reciprocate.dun_gen_map(&mut maps, a);
        let p = portals_of(&maps, a)[0];
        let arriving: Vec<Portal> = portals_of(&maps, b)
            .into_iter()
            .filter(|q| q.position_on_target() == Position::new(4, 0))
            .collect();
        assert_eq!(arriving.len(), 1);
        let q = arriving[0];
        assert_eq!(p.position_on_target(), q.local_position());
        assert_eq!(q.target(), a);
        assert_eq!(q.facing(), CardinalDirection::North);
        assert_eq!(q.local_position().y(), 5);
        assert!(q.local_position().x() >= 1 && q.local_position().x() <= 6);
        assert_eq!(p.local_position(), Position::new(4, 0));
        assert_eq!(p.target(), b);
        assert_eq!(maps.read(b).tile_type_at_local(q.local_position()), Some(TileType::Portal));
    }
}

#[test]
fn reciprocation_a_second_time_changes_nothing() {
    for _ in 0..20 {
        let mut maps = MapRegistry::new();
        let a = room(&mut maps, 12, 8);
        let b = room(&mut maps, 8, 6);
        let c = room(&mut maps, 8, 6);
        maps.add_portal(a, Position::new(4, 0), CardinalDirection::South, Position::zero(), b);
        maps.add_portal(a, Position::new(0, 3), CardinalDirection::East, Position::zero(), c);
        maps.add_portal(a, Position::new(11, 3), CardinalDirection::West, Position::zero(), b);
        let mut reciprocate = ReciprocatePortalsGenerator::new();
        reciprocate.dun_gen_map(&mut maps, a);
        let once = (portals_of(&maps, a), portals_of(&maps, b), portals_of(&maps, c));
        assert_eq!(once.1.len(), 2);
        assert_eq!(once.2.len(), 1);
        reciprocate.dun_gen_map(&mut maps, a);
        let twice = (portals_of(&maps, a), portals_of(&maps, b), portals_of(&maps, c));
        assert_eq!(once, twice);
        assert_eq!(maps.len(), 3);
    }
}

#[test]
fn reciprocation_passes_over_a_portal_that_has_its_way_back() {
    let mut maps = MapRegistry::new();
    let a = room(&mut maps, 12, 8);
    let b = room(&mut maps, 8, 6);
    maps.add_portal(a, Position::new(4, 0), CardinalDirection::South, Position::new(9, 9), b);
    maps.add_portal(b, Position::new(0, 2), CardinalDirection::East, Position::new(4, 0), a);
    let mut reciprocate = ReciprocatePortalsGenerator::new();
    reciprocate.dun_gen_map(&mut maps, a);
    assert_eq!(maps.read(b).portal_count(), 1);
    assert_eq!(portals_of(&maps, a)[0].position_on_target(), Position::new(9, 9));
}

#[test]
fn reciprocation_leaves_a_small_map_alone() {
    let mut maps = MapRegistry::new();
    let a = room(&mut maps, 2, 8);
    let b = room(&mut maps, 8, 6);
    maps.add_portal(a, Position::new(0, 3), CardinalDirection::East, Position::zero(), b);
    let mut reciprocate = ReciprocatePortalsGenerator::new();
    reciprocate.dun_gen_map(&mut maps, a);
    assert_eq!(maps.read(b).portal_count(), 0);
}

#[test]
fn reciprocation_ends_at_the_first_target_that_is_too_small() {
    let mut maps = MapRegistry::new();
    let a = room(&mut maps, 12, 8);
    let b = room(&mut maps, 8, 6);
    let small = room(&mut maps, 8, 2);
    let c = room(&mut maps, 8, 6);
    maps.add_portal(a, Position::new(4, 0), CardinalDirection::South, Position::zero(), b);
    maps.add_portal(a, Position::new(5, 0), CardinalDirection::South, Position::zero(), small);
    maps.add_portal(a, Position::new(6, 0), CardinalDirection::South, Position::zero(), c);
    let mut reciprocate = ReciprocatePortalsGenerator::new();
    reciprocate.dun_gen_map(&mut maps, a);
    assert_eq!(maps.read(b).portal_count(), 1);
    assert_eq!(maps.read(small).portal_count(), 0);
    assert_eq!(maps.read(c).portal_count(), 0);
}

#[test]
fn reciprocation_copes_with_a_portal_that_leads_back_to_its_own_map() {
    let mut maps = MapRegistry::new();
    let a = room(&mut maps, 12, 8);
    maps.add_portal(a, Position::new(4, 0), CardinalDirection::South, Position::zero(), a);
    let mut reciprocate = ReciprocatePortalsGenerator::new();
    reciprocate.dun_gen_map(&mut maps, a);
    let portals = portals_of(&maps, a);
    assert_eq!(portals.len(), 2);
    assert_eq!(portals[1].position_on_target(), Position::new(4, 0));
    assert_eq!(portals[1].target(), a);
    assert_eq!(portals[0].position_on_target(), portals[1].local_position());
    assert_eq!(portals[1].local_position().y(), 7);
}

#[test]
fn a_dungeon_of_rooms_gets_all_its_ways_back() {
    for _ in 0..20 {
        let mut maps = MapRegistry::new();
        let root = maps.insert(TileMap::new());
        let mut dun_gen = DunGen::new(maps, root);
        dun_gen
            .gen_with(SequentialGenerator::new(
                EmptyRoomGenerator::new(Size::new(12, 8)),
                SequentialGenerator::new(
                    WalledRoomGenerator::new(Size::zero()),
                    EdgePortalsGenerator::new(4usize, TileMap::new),
                ),
            ))
            .gen_with(TraversePortalsGenerator::new(SequentialGenerator::new(
                EmptyRoomGenerator::new(Size::new(8, 6)),
                WalledRoomGenerator::new(Size::zero()),
            )))
            .gen_with(TraverseThisAndPortalsGenerator::new(ReciprocatePortalsGenerator::new()));
        let maps = dun_gen.into_maps();
        let map = maps.read(root);
        assert_eq!(map.size(), Size::new(12, 8));
        assert_eq!(map.portal_count(), 4);
        for portal in map.portals() {
            let target = maps.read(portal.target());
            assert_eq!(target.size(), Size::new(8, 6));
            assert_eq!(target.tile_type_at_local(Position::new(0, 0)), Some(TileType::Wall));
            assert_eq!(target.tile_type_at_local(Position::new(1, 1)), Some(TileType::Floor));
            assert_eq!(target.portal_count(), 1);
            let other = target.portals()[0];
            assert_eq!(other.local_position(), portal.position_on_target());
            assert_eq!(other.position_on_target(), portal.local_position());
            assert_eq!(other.target(), root);
            assert_eq!(other.facing(), portal.facing().opposite());
        }
    }
}

#[test]
fn a_one_way_portal_among_others_gets_exactly_one_way_back() {
    for _ in 0..50 {
        let mut maps = MapRegistry::new();
        let a = room(&mut maps, 12, 8);
        let b = room(&mut maps, 8, 6);
        let c = room(&mut maps, 9, 7);
        maps.add_portal(a, Position::new(0, 3), CardinalDirection::East, Position::zero(), c);
        maps.add_portal(a, Position::new(4, 0), CardinalDirection::South, Position::zero(), b);
        maps.add_portal(a, Position::new(11, 2), CardinalDirection::West, Position::zero(), c);
        maps.add_portal(b, Position::new(1, 0), CardinalDirection::South, Position::new(7, 7), c);
        let mut reciprocate = ReciprocatePortalsGenerator::new();
        reciprocate.dun_gen_map(&mut maps, a);
        let p = portals_of(&maps, a)[1];
        let on_b = portals_of(&maps, b);
        assert_eq!(on_b.len(), 2);
        let arriving: Vec<&Portal> = on_b
            .iter()
            .filter(|q| q.position_on_target() == Position::new(4, 0))
            .collect();
        assert_eq!(arriving.len(), 1);
        assert_eq!(arriving[0].target(), a);
        assert_eq!(p.position_on_target(), arriving[0].local_position());
        assert_eq!(portals_of(&maps, c).len(), 2);
        assert_eq!(portals_of(&maps, a).len(), 3);
    }
}
