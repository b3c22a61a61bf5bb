use dungen_minion::geometry::{Area, Position, Size};
use dungen_minion::sub_map_generator::DEFAULT_MAX_ATTEMPTS;
use dungen_minion::{
    CountRange, DoesDunGen, DunGen, EmptyRoomGenerator, FillTilesGenerator, MapId, MapRegistry,
    SizeRange, SubMapGenerator, SubMapGeneratorSet, SubMapRef, TileMap, TileType,
    WalledRoomGenerator,
};
use std::cell::Cell;

type Provider = fn() -> TileMap;
type Check = Box<dyn Fn(&MapRegistry, Position, MapId) -> bool>;
type Fill = FillTilesGenerator<Size>;

fn parent() -> (MapRegistry, MapId) {
    let mut maps = MapRegistry::new();
    let id = maps.insert(TileMap::new());
    maps.fill(id, Area::from_size(Size::new(40, 30)), TileType::Floor);
    (maps, id)
}

fn sub_maps_of(maps: &MapRegistry, id: MapId) -> Vec<SubMapRef> {
    maps.read(id).sub_maps().clone()
}

fn invalidated(maps: &MapRegistry) -> Vec<MapId> {
    (0..maps.len())
        .map(|index| MapId { index })
        .filter(|id| maps.is_invalidated(*id))
        .collect()
}

/// A check that rejects the first `rejected` candidates it sees and accepts
/// every one after them.
fn rejecting_first(rejected: usize) -> Check {
    let seen = Cell::new(0usize);
    Box::new(move |_: &MapRegistry, _: Position, _: MapId| {
        seen.set(seen.get() + 1);
        seen.get() > rejected
    })
}

#[test]
fn without_a_check_every_candidate_is_embedded() {
    let (mut maps, root) = parent();
    let mut generator = SubMapGenerator::new(
        vec![SubMapGeneratorSet::new(
            3usize,
            Position::new(5, 7),
            Some(TileMap::new as Provider),
            None::<Fill>,
            None::<Check>,
        )],
        None,
        None::<Fill>,
        None,
    );
    generator.dun_gen_map(&mut maps, root);
    let a = MapId { index: 1 };
    let b = MapId { index: 2 };
    let c = MapId { index: 3 };
    assert_eq!(
        sub_maps_of(&maps, root),
        vec![
            SubMapRef { offset: Position::new(5, 7), target: a },
            SubMapRef { offset: Position::new(5, 7), target: b },
            SubMapRef { offset: Position::new(5, 7), target: c },
        ]
    );
    assert_eq!(maps.len(), 4);
    assert_eq!(invalidated(&maps), vec![]);
}

#[test]
fn a_rejected_candidate_is_discarded_and_another_is_tried() {
    for rejected in [0usize, 1, 2, 5, 17] {
        let (mut maps, root) = parent();
        let mut generator = SubMapGenerator::new(
            vec![SubMapGeneratorSet::new(
                1usize,
                Position::new(2, 3),
                Some(TileMap::new as Provider),
                None::<Fill>,
                Some(rejecting_first(rejected)),
            )],
            None,
            None::<Fill>,
            None,
        );
        generator.dun_gen_map(&mut maps, root);
        let discarded: Vec<MapId> = (1..=rejected).map(|index| MapId { index }).collect();
        let accepted = MapId { index: rejected + 1 };
        assert_eq!(invalidated(&maps), discarded);
        assert_eq!(
            sub_maps_of(&maps, root),
            vec![SubMapRef { offset: Position::new(2, 3), target: accepted }]
        );
        assert!(!maps.is_invalidated(accepted));
        assert_eq!(maps.len(), rejected + 2);
    }
}

#[test]
fn handles_of_discarded_candidates_are_not_reused() {
    let (mut maps, root) = parent();
    let mut generator = SubMapGenerator::new(
        vec![SubMapGeneratorSet::new(
            2usize,
            Position::new(2, 3),
            Some(TileMap::new as Provider),
            None::<Fill>,
            Some(rejecting_first(3)),
        )],
        None,
        None::<Fill>,
        None,
    );
    generator.dun_gen_map(&mut maps, root);
    let targets: Vec<MapId> = sub_maps_of(&maps, root).iter().map(|s| s.target()).collect();
    assert_eq!(targets, vec![MapId { index: 4 }, MapId { index: 5 }]);
    assert_eq!(
        invalidated(&maps),
        vec![MapId { index: 1 }, MapId { index: 2 }, MapId { index: 3 }]
    );
    let next = maps.insert(TileMap::new());
    assert_eq!(next, MapId { index: 6 });
}

#[test]
fn the_generator_gives_up_on_a_map_after_the_attempts_allowed() {
    let (mut maps, root) = parent();
    let mut generator = SubMapGenerator::new(
        vec![SubMapGeneratorSet::new(
            2usize,
            Position::new(2, 3),
            Some(TileMap::new as Provider),
            None::<Fill>,
            Some(rejecting_first(5)),
        )],
        None,
        None::<Fill>,
        None,
    )
    .with_max_attempts(4);
    generator.dun_gen_map(&mut maps, root);
    assert_eq!(invalidated(&maps).len(), 5);
    assert_eq!(
        sub_maps_of(&maps, root),
        vec![SubMapRef { offset: Position::new(2, 3), target: MapId { index: 6 } }]
    );
    assert_eq!(maps.len(), 7);
}

#[test]
fn a_check_that_never_accepts_ends_after_the_default_number_of_attempts() {
    assert_eq!(DEFAULT_MAX_ATTEMPTS, 1000);
    let (mut maps, root) = parent();
    let never: Check = Box::new(|_: &MapRegistry, _: Position, _: MapId| false);
    let mut generator = SubMapGenerator::new(
        vec![SubMapGeneratorSet::new(
            1usize,
            Position::new(2, 3),
            Some(TileMap::new as Provider),
            None::<Fill>,
            Some(never),
        )],
        None,
        None::<Fill>,
        None,
    );
    generator.dun_gen_map(&mut maps, root);
    assert_eq!(sub_maps_of(&maps, root), vec![]);
    assert_eq!(invalidated(&maps).len(), 1000);
    assert_eq!(maps.len(), 1001);
}

#[test]
fn with_no_attempts_allowed_nothing_is_tried() {
    let (mut maps, root) = parent();
    let mut generator = SubMapGenerator::new(
        vec![SubMapGeneratorSet::new(
            3usize,
            Position::new(2, 3),
            Some(TileMap::new as Provider),
            None::<Fill>,
            None::<Check>,
        )],
        None,
        None::<Fill>,
        None,
    )
    .with_max_attempts(0);
    generator.dun_gen_map(&mut maps, root);
    assert_eq!(sub_maps_of(&maps, root), vec![]);
    assert_eq!(maps.len(), 1);
}

#[test]
fn the_check_sees_the_candidate_furnished_and_its_position() {
    let (mut maps, root) = parent();
    let check: Check = Box::new(|maps: &MapRegistry, position: Position, candidate: MapId| {
        maps.read(candidate).size() == Size::new(6, 4)
            && maps.read(candidate).tile_type_at_local(Position::new(0, 0)) == Some(TileType::Wall)
            && position == Position::new(9, 9)
            && !maps.is_invalidated(candidate)
    });
    let mut generator = SubMapGenerator::new(
        vec![SubMapGeneratorSet::new(
            1usize,
            Position::new(9, 9),
            Some(TileMap::new as Provider),
            Some(EmptyRoomGenerator::new(Size::new(6, 4))),
            Some(check),
        )],
        None,
        Some(WalledRoomGenerator::new(Size::zero())),
        None,
    )
    .with_max_attempts(1);
    generator.dun_gen_map(&mut maps, root);
    assert_eq!(
        sub_maps_of(&maps, root),
        vec![SubMapRef { offset: Position::new(9, 9), target: MapId { index: 1 } }]
    );
    let placed = maps.read(MapId { index: 1 });
    assert_eq!(placed.count_tiles(TileType::Wall), 2 * 6 + 2 * 4 - 4);
    assert_eq!(placed.count_tiles(TileType::Floor), 4 * 2);
}

#[test]
fn a_set_without_a_provider_uses_the_fallback() {
    let (mut maps, root) = parent();
    let big: Provider = || {
        let mut map = TileMap::new();
        map.fill(Area::from_size(Size::new(9, 9)), TileType::Floor);
        map
    };
    let mut generator = SubMapGenerator::new(
        vec![
            SubMapGeneratorSet::new(
                1usize,
                Position::new(1, 1),
                None::<Provider>,
                None::<Fill>,
                None::<Check>,
            ),
            SubMapGeneratorSet::new(
                1usize,
                Position::new(2, 2),
                Some(TileMap::new as Provider),
                None::<Fill>,
                None::<Check>,
            ),
        ],
        Some(big),
        None::<Fill>,
        None,
    );
    generator.dun_gen_map(&mut maps, root);
    assert_eq!(
        sub_maps_of(&maps, root),
        vec![
            SubMapRef { offset: Position::new(1, 1), target: MapId { index: 1 } },
            SubMapRef { offset: Position::new(2, 2), target: MapId { index: 2 } },
        ]
    );
    assert_eq!(maps.read(MapId { index: 1 }).size(), Size::new(9, 9));
    assert_eq!(maps.read(MapId { index: 2 }).size(), Size::zero());
}

#[test]
fn the_check_of_the_set_accepts_on_its_own() {
    let (mut maps, root) = parent();
    let always: Check = Box::new(|_: &MapRegistry, _: Position, _: MapId| true);
    let never: Check = Box::new(|_: &MapRegistry, _: Position, _: MapId| false);
    let mut generator = SubMapGenerator::new(
        vec![SubMapGeneratorSet::new(
            1usize,
            Position::new(1, 1),
            Some(TileMap::new as Provider),
            None::<Fill>,
            Some(always),
        )],
        None,
        None::<Fill>,
        Some(never),
    );
    generator.dun_gen_map(&mut maps, root);
    assert_eq!(sub_maps_of(&maps, root).len(), 1);
    assert_eq!(invalidated(&maps), vec![]);
}

#[test]
fn the_check_of_the_generator_decides_where_the_set_does_not_accept() {
    let (mut maps, root) = parent();
    let never: Check = Box::new(|_: &MapRegistry, _: Position, _: MapId| false);
    let always: Check = Box::new(|_: &MapRegistry, _: Position, _: MapId| true);
    let mut generator = SubMapGenerator::new(
        vec![SubMapGeneratorSet::new(
            1usize,
            Position::new(1, 1),
            Some(TileMap::new as Provider),
            None::<Fill>,
            Some(never),
        )],
        None,
        None::<Fill>,
        Some(always),
    );
    generator.dun_gen_map(&mut maps, root);
    assert_eq!(
        sub_maps_of(&maps, root),
        vec![SubMapRef { offset: Position::new(1, 1), target: MapId { index: 1 } }]
    );
    assert_eq!(invalidated(&maps), vec![]);

    let (mut maps, root) = parent();
    let mut generator = SubMapGenerator::new(
        vec![SubMapGeneratorSet::new(
            1usize,
            Position::new(1, 1),
            Some(TileMap::new as Provider),
            None::<Fill>,
            None::<Check>,
        )],
        None,
        None::<Fill>,
        Some(rejecting_first(2)),
    );
    generator.dun_gen_map(&mut maps, root);
    assert_eq!(
        sub_maps_of(&maps, root),
        vec![SubMapRef { offset: Position::new(1, 1), target: MapId { index: 3 } }]
    );
    assert_eq!(invalidated(&maps), vec![MapId { index: 1 }, MapId { index: 2 }]);
}

#[test]
fn the_sets_are_worked_off_in_order() {
    let (mut maps, root) = parent();
    let mut generator = SubMapGenerator::new(
        vec![
            SubMapGeneratorSet::new(
                2usize,
                Position::new(1, 1),
                Some(TileMap::new as Provider),
                Some(FillTilesGenerator::new(Size::new(2, 2), TileType::Floor)),
                None::<Check>,
            ),
            SubMapGeneratorSet::new(
                1usize,
                Position::new(8, 8),
                Some(TileMap::new as Provider),
                Some(FillTilesGenerator::new(Size::new(3, 3), TileType::Wall)),
                None::<Check>,
            ),
        ],
        None,
        None::<Fill>,
        None,
    );
    generator.dun_gen_map(&mut maps, root);
    let placed = sub_maps_of(&maps, root);
    assert_eq!(placed.len(), 3);
    assert_eq!(placed[0].offset(), Position::new(1, 1));
    assert_eq!(placed[1].offset(), Position::new(1, 1));
    assert_eq!(placed[2].offset(), Position::new(8, 8));
    assert_eq!(maps.read(placed[0].target()).size(), Size::new(2, 2));
    assert_eq!(maps.read(placed[1].target()).size(), Size::new(2, 2));
    assert_eq!(maps.read(placed[2].target()).size(), Size::new(3, 3));
}

#[test]
fn without_sets_nothing_is_placed() {
    let (mut maps, root) = parent();
    let sets: Vec<SubMapGeneratorSet<usize, Position, Provider, Fill, Check>> = Vec::new();
    let mut generator = SubMapGenerator::new(sets, None, None::<Fill>, None);
    generator.dun_gen_map(&mut maps, root);
    assert_eq!(sub_maps_of(&maps, root), vec![]);
    assert_eq!(maps.len(), 1);
}

#[test]
fn rooms_are_placed_inside_the_parent() {
    for _ in 0..20 {
        let mut maps = MapRegistry::new();
        let root = maps.insert(TileMap::new());
        let inside: Check = Box::new(|maps: &MapRegistry, position: Position, candidate: MapId| {
            let size = maps.read(candidate).size();
            position.x() >= 0
                && position.y() >= 0
                && position.x() as u32 + size.width() <= 40
                && position.y() as u32 + size.height() <= 30
        });
        let mut dun_gen = DunGen::new(maps, root);
        dun_gen
            .gen_with(EmptyRoomGenerator::new(Size::new(40, 30)))
            .gen_with(WalledRoomGenerator::new(Size::zero()))
            .gen_with(SubMapGenerator::new(
                vec![SubMapGeneratorSet::new(
                    CountRange::new(4, 9),
                    Area::new(Position::new(0, 0), Size::new(34, 26)),
                    Some(TileMap::new as Provider),
                    Some(EmptyRoomGenerator::new(SizeRange::new(
                        Size::new(6, 6),
                        Size::new(12, 12),
                    ))),
                    None::<Check>,
                )],
                None,
                Some(WalledRoomGenerator::new(Size::zero())),
                Some(inside),
            ));
        let maps = dun_gen.into_maps();
        let map = maps.read(root);
        assert_eq!(map.size(), Size::new(40, 30));
        assert!(map.sub_map_count() >= 4 && map.sub_map_count() <= 9);
        for sub_map in map.sub_maps() {
            let target = maps.read(sub_map.target());
            let size = target.size();
            assert!(size.width() >= 6 && size.width() <= 12);
            assert!(size.height() >= 6 && size.height() <= 12);
            assert_eq!(target.tile_type_at_local(Position::new(0, 0)), Some(TileType::Wall));
            assert_eq!(target.tile_type_at_local(Position::new(1, 1)), Some(TileType::Floor));
            assert!(!maps.is_invalidated(sub_map.target()));
            let offset = sub_map.offset();
            assert!(offset.x() >= 0 && offset.x() as u32 + size.width() <= 40);
            assert!(offset.y() >= 0 && offset.y() as u32 + size.height() <= 30);
        }
        let kept = map.sub_map_count();
        let discarded = invalidated(&maps).len();
        assert_eq!(maps.len(), 1 + kept + discarded);
    }
}
