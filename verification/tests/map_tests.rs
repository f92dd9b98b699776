use mapgen::map::{apply_field_of_view, GridMap, TileType};
use mapgen::rect::Rect;
use mapgen::rng::{range, reseed, roll_dice};
use mapgen::spatial::SpatialIndex;
use mapgen::spawn_table::SpawnTable;

#[test]
fn new_map_is_all_walls() {
    let map = GridMap::new(1, 10, 8, "Test Level");
    assert_eq!(map.width, 10);
    assert_eq!(map.height, 8);
    assert_eq!(map.depth, 1);
    assert_eq!(map.name, "Test Level");
    assert_eq!(map.tiles.len(), 80);
    assert!(map.tiles.iter().all(|t| *t == TileType::Wall));
    assert!(map.revealed_tiles.iter().all(|r| !*r));
    assert!(map.visible_tiles.iter().all(|v| !*v));
}

#[test]
fn xy_idx_is_row_major() {
    let map = GridMap::new(1, 7, 5, "Test");
    assert_eq!(map.xy_idx(0, 0), 0);
    assert_eq!(map.xy_idx(6, 0), 6);
    assert_eq!(map.xy_idx(0, 1), 7);
    assert_eq!(map.xy_idx(3, 2), 17);
    assert_eq!(map.xy_idx(6, 4), 34);
}

#[test]
fn xy_idx_roundtrips_for_all_coordinates() {
    let map = GridMap::new(1, 9, 6, "Test");
    for y in 0..6 {
        for x in 0..9 {
            let idx = map.xy_idx(x, y);
            let (rx, ry) = map.idx_xy(idx);
            assert_eq!((rx, ry), (x, y));
        }
    }
    for idx in 0..54usize {
        let (x, y) = map.idx_xy(idx);
        assert_eq!(map.xy_idx(x, y), idx);
    }
}

#[test]
fn populate_blocked_follows_tile_types() {
    let mut map = GridMap::new(1, 4, 4, "Test");
    let idx = map.xy_idx(2, 2);
    map.tiles[idx] = TileType::Floor;
    let sidx = map.xy_idx(1, 1);
    map.tiles[sidx] = TileType::DownStairs;
    map.populate_blocked();
    for i in 0..16usize {
        if i == idx || i == sidx {
            assert!(!map.blocked[i]);
        } else {
            assert!(map.blocked[i]);
        }
    }
}

#[test]
fn clone_map_is_identical() {
    let mut map = GridMap::new(3, 5, 5, "Depths");
    let idx = map.xy_idx(2, 3);
    map.tiles[idx] = TileType::Floor;
    let copy = map.clone_map();
    assert_eq!(copy.tiles, map.tiles);
    assert_eq!(copy.width, map.width);
    assert_eq!(copy.height, map.height);
    assert_eq!(copy.depth, map.depth);
    assert_eq!(copy.name, map.name);
}

#[test]
fn rect_intersection_and_center() {
    let a = Rect::new(2, 2, 4, 4);
    let b = Rect::new(5, 5, 4, 4);
    let c = Rect::new(10, 10, 2, 2);
    assert!(a.intersect(&b));
    assert!(!a.intersect(&c));
    assert_eq!(a.center(), (4, 4));
    let odd = Rect::new(0, 0, 3, 3);
    assert_eq!(odd.center(), (1, 1));
}

#[test]
fn same_seed_gives_same_stream() {
    let mut a = reseed(1234);
    let mut b = reseed(1234);
    for _ in 0..100 {
        assert_eq!(roll_dice(&mut a, 3, 6), roll_dice(&mut b, 3, 6));
        assert_eq!(range(&mut a, -5, 20), range(&mut b, -5, 20));
    }
}

#[test]
fn different_seeds_diverge() {
    let mut a = reseed(1);
    let mut b = reseed(2);
    let draws_a: Vec<i32> = (0..32).map(|_| range(&mut a, 0, 1000000)).collect();
    let draws_b: Vec<i32> = (0..32).map(|_| range(&mut b, 0, 1000000)).collect();
    assert_ne!(draws_a, draws_b);
}

#[test]
fn range_is_min_inclusive_max_exclusive() {
    let mut rng = reseed(99);
    let mut saw_min = false;
    for _ in 0..2000 {
        let v = range(&mut rng, 3, 6);
        assert!((3..6).contains(&v));
        if v == 3 {
            saw_min = true;
        }
    }
    assert!(saw_min);
}

#[test]
fn roll_dice_stays_in_dice_bounds() {
    let mut rng = reseed(7);
    for _ in 0..500 {
        let v = roll_dice(&mut rng, 3, 6);
        assert!((3..=18).contains(&v));
    }
    assert_eq!(roll_dice(&mut rng, 0, 6), 0);
}

#[test]
fn zero_seed_still_draws() {
    let mut rng = reseed(0);
    let v = range(&mut rng, 0, 10);
    assert!((0..10).contains(&v));
}

#[test]
fn empty_spawn_table_rolls_nothing() {
    let table = SpawnTable::new();
    let mut rng = reseed(5);
    assert_eq!(table.roll(&mut rng), None);
}

#[test]
fn spawn_table_rolls_only_listed_tags() {
    let mut table = SpawnTable::new();
    table.add("Goblin", 10);
    table.add("Orc", 3);
    table.add("Health Potion", 7);
    assert_eq!(table.total_weight(), 20);
    let mut rng = reseed(11);
    let mut saw_goblin = false;
    for _ in 0..200 {
        let tag = table.roll(&mut rng).expect("non-empty table must yield a tag");
        assert!(tag == "Goblin" || tag == "Orc" || tag == "Health Potion");
        if tag == "Goblin" {
            saw_goblin = true;
        }
    }
    assert!(saw_goblin);
}

#[test]
fn single_entry_table_always_picks_it() {
    let mut table = SpawnTable::new();
    table.add("Rat", 1);
    let mut rng = reseed(3);
    for _ in 0..20 {
        assert_eq!(table.roll(&mut rng).as_deref(), Some("Rat"));
    }
}

#[test]
fn spatial_index_rebuilds_from_map() {
    let mut map = GridMap::new(1, 4, 3, "Test");
    let f = map.xy_idx(1, 1);
    map.tiles[f] = TileType::Floor;
    let mut index = SpatialIndex::new();
    index.populate_blocked_from_map(&map);
    for i in 0..12usize {
        assert_eq!(index.is_blocked(i), i != f);
        assert!(index.entities_at(i).is_empty());
    }
}

#[test]
fn spatial_index_tracks_entities() {
    let mut map = GridMap::new(1, 4, 3, "Test");
    let f = map.xy_idx(1, 1);
    let g = map.xy_idx(2, 1);
    map.tiles[f] = TileType::Floor;
    map.tiles[g] = TileType::Floor;
    let mut index = SpatialIndex::new();
    index.populate_blocked_from_map(&map);
    index.index_entity(7, f, false);
    index.index_entity(8, f, true);
    index.index_entity(9, g, false);
    assert_eq!(index.entities_at(f), &vec![(7, false), (8, true)]);
    assert_eq!(index.entities_at(g), &vec![(9, false)]);
    assert!(index.is_blocked(f), "a blocking occupant blocks the tile");
    assert!(!index.is_blocked(g));
    // a rebuild invalidates every cached entity record
    index.populate_blocked_from_map(&map);
    assert!(index.entities_at(f).is_empty());
    assert!(!index.is_blocked(f));
}

#[test]
fn field_of_view_marks_exactly_the_given_points() {
    let mut map = GridMap::new(1, 6, 5, "Test");
    let stale = map.xy_idx(5, 4);
    map.visible_tiles[stale] = true;
    let already = map.xy_idx(0, 0);
    map.revealed_tiles[already] = true;
    let fov = vec![(1, 1), (2, 1), (1, 2)];
    apply_field_of_view(&mut map, &fov);
    for y in 0..5 {
        for x in 0..6 {
            let idx = map.xy_idx(x, y);
            let in_fov = fov.contains(&(x, y));
            assert_eq!(map.visible_tiles[idx], in_fov, "visibility at ({}, {})", x, y);
            let expect_rev = in_fov || idx == already;
            assert_eq!(map.revealed_tiles[idx], expect_rev, "revealed at ({}, {})", x, y);
        }
    }
    // a second pass forgets old visibility but keeps everything revealed
    apply_field_of_view(&mut map, &vec![(4, 4)]);
    assert!(map.visible_tiles[map.xy_idx(4, 4)]);
    assert!(!map.visible_tiles[map.xy_idx(1, 1)]);
    assert!(map.revealed_tiles[map.xy_idx(1, 1)]);
}
