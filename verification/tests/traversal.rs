use dungen_minion::geometry::{Area, CardinalDirection, Position, Size};
use dungen_minion::registry::RegistryModel;
use dungen_minion::traverse_portals_generator::{apply_in_turn, portal_targets};
use dungen_minion::{
    DoesDunGen, DunGen, FillTilesGenerator, IfMapThenGenerator, MapId, MapRegistry,
    SequentialGenerator, TileMap, TileType, TraversePortalsGenerator,
    TraverseThisAndPortalsGenerator, VisitMapOnceGenerator, WalledRoomGenerator,
};

/// Records the maps it runs on and writes a floor tile at the origin of each.
struct Recording {
    runs: Vec<MapId>,
}

impl Recording {
    fn new() -> Self {
        Recording { runs: Vec::new() }
    }
}

impl DoesDunGen for Recording {
    fn wf(&self) -> bool {
        true
    }

    fn effect(&self, _: &Self, _: RegistryModel, _: MapId, _: RegistryModel) -> bool {
        true
    }

    fn dun_gen_map(&mut self, maps: &mut MapRegistry, map_id: MapId) {
        self.runs.push(map_id);
        maps.tile_type_at_local_set(map_id, Position::new(0, 0), TileType::Floor);
    }
}

/// Adds a portal from each map it runs on to the map given, at the origin.
struct Linking {
    to: MapId,
}

impl DoesDunGen for Linking {
    fn wf(&self) -> bool {
        true
    }

    fn effect(&self, _: &Self, _: RegistryModel, _: MapId, _: RegistryModel) -> bool {
        true
    }

    fn dun_gen_map(&mut self, maps: &mut MapRegistry, map_id: MapId) {
        maps.add_portal(map_id, Position::new(0, 0), CardinalDirection::North, Position::zero(), self.to);
    }
}

fn rooms(count: usize) -> (MapRegistry, Vec<MapId>) {
    let mut maps = MapRegistry::new();
    let mut ids = Vec::new();
    for _ in 0..count {
        let id = maps.insert(TileMap::new());
        maps.fill(id, Area::from_size(Size::new(5, 5)), TileType::Void);
        ids.push(id);
    }
    (maps, ids)
}

fn link(maps: &mut MapRegistry, from: MapId, at: i32, to: MapId) {
    assert!(maps.add_portal(from, Position::new(at, 0), CardinalDirection::South, Position::zero(), to));
}

fn cycle(count: usize) -> (MapRegistry, Vec<MapId>) {
    let (mut maps, ids) = rooms(count);
    for i in 0..count {
        link(&mut maps, ids[i], 1, ids[(i + 1) % count]);
    }
    (maps, ids)
}

#[test]
fn portal_targets_follow_the_order_of_the_portals() {
    let (mut maps, ids) = rooms(3);
    link(&mut maps, ids[0], 1, ids[2]);
    link(&mut maps, ids[0], 2, ids[1]);
    link(&mut maps, ids[0], 3, ids[2]);
    assert_eq!(portal_targets(&maps, ids[0]), vec![ids[2], ids[1], ids[2]]);
    assert_eq!(portal_targets(&maps, ids[1]), vec![]);
}

#[test]
fn apply_in_turn_applies_to_each_target_in_order() {
    let (mut maps, ids) = rooms(3);
    let mut recording = Recording::new();
    apply_in_turn(&mut recording, &mut maps, &vec![ids[2], ids[0], ids[2]]);
    assert_eq!(recording.runs, vec![ids[2], ids[0], ids[2]]);
}

#[test]
fn the_guard_runs_the_wrapped_generator_at_most_once_per_map() {
    let (mut maps, ids) = rooms(1);
    let mut guard = VisitMapOnceGenerator::new(FillTilesGenerator::new(
        Size::new(2, 2),
        TileType::Floor,
    ));
    guard.dun_gen_map(&mut maps, ids[0]);
    assert_eq!(maps.read(ids[0]).tile_type_at_local(Position::new(1, 1)), Some(TileType::Floor));
    maps.tile_type_at_local_set(ids[0], Position::new(1, 1), TileType::Wall);
    guard.dun_gen_map(&mut maps, ids[0]);
    assert_eq!(maps.read(ids[0]).tile_type_at_local(Position::new(1, 1)), Some(TileType::Wall));
    assert_eq!(guard.visited_maps(), &vec![ids[0]]);
}

#[test]
fn the_guard_runs_the_wrapped_generator_once_for_each_distinct_map() {
    let (mut maps, ids) = rooms(4);
    let offered = [0usize, 1, 0, 2, 2, 1, 3, 0, 3, 3, 1];
    let mut guard = VisitMapOnceGenerator::new(FillTilesGenerator::new(
        Size::new(1, 1),
        TileType::Floor,
    ));
    for i in offered {
        maps.tile_type_at_local_set(ids[i], Position::new(0, 0), TileType::Wall);
        let was_visited = guard.visited_maps().contains(&ids[i]);
        guard.dun_gen_map(&mut maps, ids[i]);
        let expected = if was_visited { TileType::Wall } else { TileType::Floor };
        assert_eq!(maps.read(ids[i]).tile_type_at_local(Position::new(0, 0)), Some(expected));
    }
    assert_eq!(guard.visited_maps(), &vec![ids[0], ids[1], ids[2], ids[3]]);
    assert_eq!(guard.visited_maps().len(), 4);
}

#[test]
fn two_guards_do_not_share_what_they_have_visited() {
    let (mut maps, ids) = rooms(1);
    let mut first = VisitMapOnceGenerator::new(FillTilesGenerator::new(Size::new(1, 1), TileType::Floor));
    let mut second = VisitMapOnceGenerator::new(FillTilesGenerator::new(Size::new(1, 1), TileType::Wall));
    first.dun_gen_map(&mut maps, ids[0]);
    second.dun_gen_map(&mut maps, ids[0]);
    assert_eq!(maps.read(ids[0]).tile_type_at_local(Position::new(0, 0)), Some(TileType::Wall));
}

#[test]
fn traverse_portals_goes_one_hop_only() {
    let (mut maps, ids) = rooms(4);
    link(&mut maps, ids[0], 1, ids[1]);
    link(&mut maps, ids[0], 2, ids[2]);
    link(&mut maps, ids[1], 1, ids[3]);
    let mut traverse = TraversePortalsGenerator::new(FillTilesGenerator::new(
        Area::new(Position::new(4, 4), Size::new(1, 1)),
        TileType::Floor,
    ));
    traverse.dun_gen_map(&mut maps, ids[0]);
    let marked = |maps: &MapRegistry, id: MapId| {
        maps.read(id).tile_type_at_local(Position::new(4, 4)) == Some(TileType::Floor)
    };
    assert!(!marked(&maps, ids[0]));
    assert!(marked(&maps, ids[1]));
    assert!(marked(&maps, ids[2]));
    assert!(!marked(&maps, ids[3]));
}

#[test]
fn traverse_portals_visits_a_target_once_for_each_portal_that_leads_to_it() {
    let (mut maps, ids) = rooms(3);
    link(&mut maps, ids[0], 1, ids[1]);
    link(&mut maps, ids[0], 2, ids[2]);
    link(&mut maps, ids[0], 3, ids[1]);
    let mut dun_gen = DunGen::new(maps, ids[0]);
    let mut traverse = TraversePortalsGenerator::new(VisitMapOnceGenerator::new(
        FillTilesGenerator::new(Size::new(1, 1), TileType::Floor),
    ));
    traverse.dun_gen(&mut dun_gen);
    assert_eq!(dun_gen.get_map_id(), ids[0]);
    let maps = dun_gen.into_maps();
    assert_eq!(maps.read(ids[1]).tile_type_at_local(Position::new(0, 0)), Some(TileType::Floor));
    assert_eq!(maps.read(ids[2]).tile_type_at_local(Position::new(0, 0)), Some(TileType::Floor));
    assert_eq!(maps.read(ids[0]).tile_type_at_local(Position::new(0, 0)), Some(TileType::Void));
}

#[test]
fn traverse_portals_takes_its_targets_before_the_generator_runs() {
    let (mut maps, ids) = rooms(3);
    link(&mut maps, ids[0], 1, ids[0]);
    link(&mut maps, ids[0], 2, ids[1]);
    let mut traverse = TraversePortalsGenerator::new(Linking { to: ids[2] });
    traverse.dun_gen_map(&mut maps, ids[0]);
    assert_eq!(portal_targets(&maps, ids[0]), vec![ids[0], ids[1], ids[2]]);
    assert_eq!(portal_targets(&maps, ids[1]), vec![ids[2]]);
    assert_eq!(portal_targets(&maps, ids[2]), vec![]);
}

#[test]
fn traverse_this_and_portals_runs_on_the_map_and_then_on_the_targets() {
    let (mut maps, ids) = rooms(4);
    link(&mut maps, ids[0], 1, ids[2]);
    link(&mut maps, ids[0], 2, ids[1]);
    link(&mut maps, ids[1], 1, ids[3]);
    let mut traverse = TraverseThisAndPortalsGenerator::new(Recording::new());
    traverse.dun_gen_map(&mut maps, ids[0]);
    for (id, expected) in [
        (ids[0], TileType::Floor),
        (ids[1], TileType::Floor),
        (ids[2], TileType::Floor),
        (ids[3], TileType::Void),
    ] {
        assert_eq!(maps.read(id).tile_type_at_local(Position::new(0, 0)), Some(expected));
    }
}

#[test]
fn traverse_this_and_portals_takes_its_targets_after_the_map_itself() {
    let (mut maps, ids) = rooms(2);
    let mut traverse = TraverseThisAndPortalsGenerator::new(Linking { to: ids[1] });
    traverse.dun_gen_map(&mut maps, ids[0]);
    assert_eq!(portal_targets(&maps, ids[0]), vec![ids[1]]);
    assert_eq!(portal_targets(&maps, ids[1]), vec![ids[1]]);
}

#[test]
fn a_cycle_is_traversed_once_and_the_traversal_ends() {
    for count in [1usize, 2, 3, 7] {
        let (mut maps, ids) = cycle(count);
        let mut traverse = TraverseThisAndPortalsGenerator::new(VisitMapOnceGenerator::new(
            FillTilesGenerator::new(
                Area::new(Position::new(4, 4), Size::new(1, 1)),
                TileType::Floor,
            ),
        ));
        for round in 0..3 {
            for &id in &ids {
                if round > 0 {
                    maps.tile_type_at_local_set(id, Position::new(4, 4), TileType::Wall);
                }
                traverse.dun_gen_map(&mut maps, id);
            }
            let expected = if round == 0 { TileType::Floor } else { TileType::Wall };
            for &id in &ids {
                assert_eq!(maps.read(id).tile_type_at_local(Position::new(4, 4)), Some(expected));
            }
        }
    }
}

#[test]
fn a_guard_inside_a_traversal_records_the_cycle_in_order() {
    let (mut maps, ids) = cycle(5);
    let mut guard = VisitMapOnceGenerator::new(Recording::new());
    for &id in &ids {
        let mut offered = vec![id];
        offered.extend(portal_targets(&maps, id));
        apply_in_turn(&mut guard, &mut maps, &offered);
    }
    assert_eq!(guard.visited_maps(), &ids);
    for &id in &ids {
        guard.dun_gen_map(&mut maps, id);
    }
    assert_eq!(guard.visited_maps(), &ids);
}

#[test]
fn sequential_applies_the_first_and_then_the_second() {
    let (mut maps, ids) = rooms(1);
    let mut sequence = SequentialGenerator::new(
        FillTilesGenerator::new(Size::new(3, 3), TileType::Wall),
        FillTilesGenerator::new(Area::new(Position::new(1, 1), Size::new(4, 1)), TileType::Floor),
    );
    sequence.dun_gen_map(&mut maps, ids[0]);
    let map = maps.read(ids[0]);
    assert_eq!(map.tile_type_at_local(Position::new(1, 1)), Some(TileType::Floor));
    assert_eq!(map.tile_type_at_local(Position::new(0, 0)), Some(TileType::Wall));
}

#[test]
fn sequential_lets_the_second_see_what_the_first_did() {
    let mut maps = MapRegistry::new();
    let id = maps.insert(TileMap::new());
    let mut sequence = SequentialGenerator::new(
        FillTilesGenerator::new(Size::new(5, 4), TileType::Floor),
        WalledRoomGenerator::new(Size::zero()),
    );
    sequence.dun_gen_map(&mut maps, id);
    assert_eq!(maps.read(id).size(), Size::new(5, 4));
    assert_eq!(maps.read(id).count_tiles(TileType::Wall), 14);
    assert_eq!(maps.read(id).count_tiles(TileType::Floor), 6);
}

#[test]
fn a_longer_sequence_is_a_sequence_of_sequences() {
    let (mut maps, ids) = rooms(1);
    let mut sequence = SequentialGenerator::new(
        FillTilesGenerator::new(Size::new(1, 1), TileType::Wall),
        SequentialGenerator::new(
            FillTilesGenerator::new(Size::new(1, 1), TileType::Floor),
            FillTilesGenerator::new(Size::new(1, 1), TileType::Portal),
        ),
    );
    sequence.dun_gen_map(&mut maps, ids[0]);
    assert_eq!(maps.read(ids[0]).tile_type_at_local(Position::new(0, 0)), Some(TileType::Portal));
}

#[test]
fn the_condition_gates_the_generator() {
    let mut maps = MapRegistry::new();
    let fresh = maps.insert(TileMap::new());
    let used = maps.insert(TileMap::new());
    maps.fill(used, Area::from_size(Size::new(2, 2)), TileType::Wall);
    let mut generator = IfMapThenGenerator::new(
        |maps: &MapRegistry, map_id: MapId| maps.read(map_id).size().is_zero(),
        FillTilesGenerator::new(Size::new(4, 4), TileType::Floor),
    );
    generator.dun_gen_map(&mut maps, fresh);
    generator.dun_gen_map(&mut maps, used);
    assert_eq!(maps.read(fresh).size(), Size::new(4, 4));
    assert_eq!(maps.read(fresh).count_tiles(TileType::Floor), 16);
    assert_eq!(maps.read(used).size(), Size::new(2, 2));
    assert_eq!(maps.read(used).count_tiles(TileType::Wall), 4);
    generator.dun_gen_map(&mut maps, fresh);
    assert_eq!(maps.read(fresh).size(), Size::new(4, 4));
}

#[test]
fn the_condition_is_tested_before_the_generator_runs() {
    let mut maps = MapRegistry::new();
    let id = maps.insert(TileMap::new());
    let mut generator = IfMapThenGenerator::new(
        |maps: &MapRegistry, map_id: MapId| maps.read(map_id).size().is_zero(),
        FillTilesGenerator::new(Size::new(4, 4), TileType::Floor),
    );
    generator.dun_gen_map(&mut maps, id);
    assert_eq!(maps.read(id).size(), Size::new(4, 4));
}
