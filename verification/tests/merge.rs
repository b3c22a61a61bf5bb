use dungen_minion::geometry::{Area, CardinalDirection, Position, Size};
use dungen_minion::merge_portal_maps_as_sub_maps_generator::checked_embedding;
use dungen_minion::{
    DoesDunGen, MapId, MapRegistry, MergePortalMapsAsSubMapsGenerator, Portal, SubMapRef, TileMap,
    TileType,
};

fn room(maps: &mut MapRegistry) -> MapId {
    let id = maps.insert(TileMap::new());
    maps.fill(id, Area::from_size(Size::new(10, 10)), TileType::Floor);
    id
}

fn link(maps: &mut MapRegistry, from: MapId, local: (i32, i32), to: MapId, on_target: (i32, i32)) {
    assert!(maps.add_portal(
        from,
        Position::new(local.0, local.1),
        CardinalDirection::North,
        Position::new(on_target.0, on_target.1),
        to,
    ));
}

fn sub_maps_of(maps: &MapRegistry, id: MapId) -> Vec<SubMapRef> {
    maps.read(id).sub_maps().clone()
}

fn embedded(x: i32, y: i32, target: MapId) -> SubMapRef {
    SubMapRef { offset: Position::new(x, y), target }
}

#[test]
fn the_offset_is_the_portal_tile_less_the_arrival_position() {
    let portal = Portal {
        local_position: Position::new(9, 4),
        facing: CardinalDirection::West,
        position_on_target: Position::new(0, 6),
        target: MapId { index: 1 },
    };
    assert_eq!(checked_embedding(Position::zero(), &portal), Some(Position::new(9, -2)));
    assert_eq!(checked_embedding(Position::new(100, 50), &portal), Some(Position::new(109, 48)));
}

#[test]
fn an_offset_that_is_not_representable_is_refused() {
    let portal = Portal {
        local_position: Position::new(0, 0),
        facing: CardinalDirection::West,
        position_on_target: Position::new(i32::MIN, 0),
        target: MapId { index: 1 },
    };
    assert_eq!(checked_embedding(Position::zero(), &portal), None);
    assert_eq!(
        checked_embedding(Position::new(-1, 0), &portal),
        Some(Position::new(i32::MAX, 0))
    );
    let down = Portal { position_on_target: Position::new(0, 5), ..portal };
    assert_eq!(checked_embedding(Position::new(0, i32::MIN + 4), &down), None);
    assert_eq!(
        checked_embedding(Position::new(0, i32::MIN + 5), &down),
        Some(Position::new(0, i32::MIN))
    );
}

#[test]
fn one_hop_embeds_the_target_at_the_offset_of_the_portal() {
    let mut maps = MapRegistry::new();
    let a = room(&mut maps);
    let b = room(&mut maps);
    link(&mut maps, a, (9, 4), b, (0, 6));
    let mut merge = MergePortalMapsAsSubMapsGenerator::new(1, |_: &Portal| true);
    merge.dun_gen_map(&mut maps, a);
    assert_eq!(sub_maps_of(&maps, a), vec![embedded(9 - 0, 4 - 6, b)]);
    assert_eq!(sub_maps_of(&maps, b), vec![]);
    assert_eq!(merge.visited_maps(), &vec![a, b]);
}

#[test]
fn two_hops_add_up_the_offsets() {
    let mut maps = MapRegistry::new();
    let a = room(&mut maps);
    let b = room(&mut maps);
    let c = room(&mut maps);
    link(&mut maps, a, (9, 4), b, (0, 6));
    link(&mut maps, b, (3, 9), c, (5, 0));
    let mut merge = MergePortalMapsAsSubMapsGenerator::new(2, |_: &Portal| true);
    merge.dun_gen_map(&mut maps, a);
    assert_eq!(
        sub_maps_of(&maps, a),
        vec![embedded(9, -2, b), embedded(9 + (3 - 5), -2 + (9 - 0), c)]
    );
    assert_eq!(sub_maps_of(&maps, b), vec![]);
}

#[test]
fn the_depth_limits_how_far_the_merge_goes() {
    let mut maps = MapRegistry::new();
    let a = room(&mut maps);
    let b = room(&mut maps);
    let c = room(&mut maps);
    let d = room(&mut maps);
    link(&mut maps, a, (1, 0), b, (0, 0));
    link(&mut maps, b, (2, 0), c, (0, 0));
    link(&mut maps, c, (3, 0), d, (0, 0));
    let mut shallow = MergePortalMapsAsSubMapsGenerator::new(1, |_: &Portal| true);
    shallow.dun_gen_map(&mut maps, a);
    assert_eq!(sub_maps_of(&maps, a), vec![embedded(1, 0, b)]);

    let mut maps = MapRegistry::new();
    let a = room(&mut maps);
    let b = room(&mut maps);
    let c = room(&mut maps);
    let d = room(&mut maps);
    link(&mut maps, a, (1, 0), b, (0, 0));
    link(&mut maps, b, (2, 0), c, (0, 0));
    link(&mut maps, c, (3, 0), d, (0, 0));
    let mut deep = MergePortalMapsAsSubMapsGenerator::new(usize::MAX, |_: &Portal| true);
    deep.dun_gen_map(&mut maps, a);
    assert_eq!(
        sub_maps_of(&maps, a),
        vec![embedded(1, 0, b), embedded(3, 0, c), embedded(6, 0, d)]
    );
}

#[test]
fn a_depth_of_zero_embeds_nothing_but_marks_the_map() {
    let mut maps = MapRegistry::new();
    let a = room(&mut maps);
    let b = room(&mut maps);
    link(&mut maps, a, (1, 0), b, (0, 0));
    let mut merge = MergePortalMapsAsSubMapsGenerator::new(0, |_: &Portal| true);
    merge.dun_gen_map(&mut maps, a);
    assert_eq!(sub_maps_of(&maps, a), vec![]);
    assert_eq!(merge.visited_maps(), &vec![a]);
}

#[test]
fn the_merge_goes_breadth_first_in_the_order_of_the_portals() {
    let mut maps = MapRegistry::new();
    let a = room(&mut maps);
    let b = room(&mut maps);
    let c = room(&mut maps);
    let d = room(&mut maps);
    let e = room(&mut maps);
    link(&mut maps, a, (1, 0), b, (0, 0));
    link(&mut maps, a, (0, 1), c, (0, 0));
    link(&mut maps, b, (5, 0), d, (0, 0));
    link(&mut maps, c, (0, 5), e, (0, 0));
    link(&mut maps, b, (6, 0), e, (0, 0));
    let mut merge = MergePortalMapsAsSubMapsGenerator::new(3, |_: &Portal| true);
    merge.dun_gen_map(&mut maps, a);
    assert_eq!(
        sub_maps_of(&maps, a),
        vec![embedded(1, 0, b), embedded(0, 1, c), embedded(6, 0, d), embedded(7, 0, e)]
    );
    assert_eq!(merge.visited_maps(), &vec![a, b, c, d, e]);
}

#[test]
fn a_cycle_is_merged_once_around() {
    let mut maps = MapRegistry::new();
    let a = room(&mut maps);
    let b = room(&mut maps);
    let c = room(&mut maps);
    link(&mut maps, a, (1, 0), b, (0, 0));
    link(&mut maps, b, (2, 0), c, (0, 0));
    link(&mut maps, c, (3, 0), a, (0, 0));
    link(&mut maps, a, (4, 4), a, (0, 0));
    let mut merge = MergePortalMapsAsSubMapsGenerator::new(usize::MAX, |_: &Portal| true);
    merge.dun_gen_map(&mut maps, a);
    assert_eq!(sub_maps_of(&maps, a), vec![embedded(1, 0, b), embedded(3, 0, c)]);
}

#[test]
fn a_map_is_embedded_for_the_first_portal_that_reaches_it() {
    let mut maps = MapRegistry::new();
    let a = room(&mut maps);
    let b = room(&mut maps);
    link(&mut maps, a, (1, 1), b, (0, 0));
    link(&mut maps, a, (7, 7), b, (2, 2));
    let mut merge = MergePortalMapsAsSubMapsGenerator::new(1, |_: &Portal| true);
    merge.dun_gen_map(&mut maps, a);
    assert_eq!(sub_maps_of(&maps, a), vec![embedded(1, 1, b)]);
}

#[test]
fn the_filter_decides_which_portals_are_followed() {
    let mut maps = MapRegistry::new();
    let a = room(&mut maps);
    let b = room(&mut maps);
    let c = room(&mut maps);
    assert!(maps.add_portal(a, Position::new(0, 3), CardinalDirection::East, Position::zero(), b));
    assert!(maps.add_portal(a, Position::new(9, 3), CardinalDirection::West, Position::zero(), c));
    let mut merge = MergePortalMapsAsSubMapsGenerator::new(1, |portal: &Portal| {
        portal.facing() == CardinalDirection::West
    });
    merge.dun_gen_map(&mut maps, a);
    assert_eq!(sub_maps_of(&maps, a), vec![embedded(9, 3, c)]);
    assert_eq!(merge.visited_maps(), &vec![a, c]);
}

#[test]
fn a_map_that_has_been_visited_is_left_alone() {
    let mut maps = MapRegistry::new();
    let a = room(&mut maps);
    let b = room(&mut maps);
    let c = room(&mut maps);
    link(&mut maps, a, (1, 0), b, (0, 0));
    link(&mut maps, c, (2, 0), b, (0, 0));
    link(&mut maps, c, (3, 0), a, (0, 0));
    let mut merge = MergePortalMapsAsSubMapsGenerator::new(1, |_: &Portal| true);
    merge.dun_gen_map(&mut maps, a);
    merge.dun_gen_map(&mut maps, a);
    assert_eq!(sub_maps_of(&maps, a), vec![embedded(1, 0, b)]);
    merge.dun_gen_map(&mut maps, b);
    assert_eq!(sub_maps_of(&maps, b), vec![]);
    merge.dun_gen_map(&mut maps, c);
    assert_eq!(sub_maps_of(&maps, c), vec![]);
    assert_eq!(merge.visited_maps(), &vec![a, b, c]);
}

#[test]
fn a_target_whose_offset_is_not_representable_is_passed_over() {
    let mut maps = MapRegistry::new();
    let a = room(&mut maps);
    let b = room(&mut maps);
    let c = room(&mut maps);
    link(&mut maps, a, (0, 0), b, (i32::MIN, 0));
    link(&mut maps, a, (1, 0), c, (0, 0));
    let mut merge = MergePortalMapsAsSubMapsGenerator::new(1, |_: &Portal| true);
    merge.dun_gen_map(&mut maps, a);
    assert_eq!(sub_maps_of(&maps, a), vec![embedded(1, 0, c)]);
    assert_eq!(merge.visited_maps(), &vec![a, c]);
}

#[test]
fn merging_keeps_portals_and_tiles() {
    let mut maps = MapRegistry::new();
    let a = room(&mut maps);
    let b = room(&mut maps);
    link(&mut maps, a, (9, 4), b, (0, 6));
    let mut merge = MergePortalMapsAsSubMapsGenerator::new(1, |_: &Portal| true);
    merge.dun_gen_map(&mut maps, a);
    assert_eq!(maps.read(a).portal_count(), 1);
    assert_eq!(maps.read(a).size(), Size::new(10, 10));
    assert_eq!(maps.read(a).count_tiles(TileType::Floor), 99);
    assert_eq!(maps.len(), 2);
}
