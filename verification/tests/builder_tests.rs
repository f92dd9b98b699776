use mapgen::map::{GridMap, TileType};
use mapgen::map_builders::area_points::{XEnd, XStart, YEnd, YStart};
use mapgen::map_builders::mushroom_forest::{mushroom_builder, mushroom_entrance, mushroom_exit};
use mapgen::map_builders::prefab_builder::{drow_entry, underground_fort};
use mapgen::map_builders::voronoi_spawning::voronoi_membership;
use mapgen::map_builders::{level_builder, BuilderChain, BuilderStep, MapBuildError};
use mapgen::rng::reseed;
use mapgen::spawn_table::SpawnTable;

fn sample_table() -> SpawnTable {
    let mut table = SpawnTable::new();
    table.add("Goblin", 10);
    table.add("Orc", 3);
    table.add("Health Potion", 7);
    table
}

fn count_stairs(map: &GridMap) -> usize {
    map.tiles.iter().filter(|t| **t == TileType::DownStairs).count()
}

/// Breadth-first traversal over walkable tiles, 4-connected.
fn flood_from(map: &GridMap, start: usize) -> Vec<bool> {
    let w = map.width as usize;
    let n = map.tiles.len();
    let mut seen = vec![false; n];
    let mut queue = Vec::new();
    if map.tiles[start] != TileType::Wall {
        seen[start] = true;
        queue.push(start);
    }
    let mut qi = 0;
    while qi < queue.len() {
        let c = queue[qi];
        qi += 1;
        let x = c % w;
        let y = c / w;
        let mut neighbors = Vec::new();
        if x > 0 {
            neighbors.push(c - 1);
        }
        if x + 1 < w {
            neighbors.push(c + 1);
        }
        if y > 0 {
            neighbors.push(c - w);
        }
        if c + w < n {
            neighbors.push(c + w);
        }
        for nb in neighbors {
            if !seen[nb] && map.tiles[nb] != TileType::Wall {
                seen[nb] = true;
                queue.push(nb);
            }
        }
    }
    seen
}

/// The chain of the example scenario: cellular-automata carving, a centre
/// start, culling, then an exit near the right edge.
fn scenario_chain() -> BuilderChain {
    let mut chain = BuilderChain::new(1, 64, 64, "Scenario", false);
    chain.start_with(BuilderStep::CellularAutomata);
    chain.with(BuilderStep::AreaStartingPosition { x: XStart::Center, y: YStart::Center });
    chain.with(BuilderStep::CullUnreachable);
    chain.with(BuilderStep::AreaEndingPosition { x: XEnd::Right, y: YEnd::Center });
    chain
}

#[test]
fn scenario_start_is_floor_exit_unique_and_all_reachable() {
    let mut chain = scenario_chain();
    let mut rng = reseed(1234);
    let table = sample_table();
    chain.build(&mut rng, &table).expect("scenario chain must build");
    let map = chain.get_map();
    let start = chain.get_starting_position().expect("a start must be set");
    let start_idx = map.xy_idx(start.x, start.y);
    assert_eq!(map.tiles[start_idx], TileType::Floor);
    assert_eq!(count_stairs(&map), 1);
    let seen = flood_from(&map, start_idx);
    for (i, tile) in map.tiles.iter().enumerate() {
        if *tile != TileType::Wall {
            assert!(seen[i], "tile {} is walkable but unreachable", i);
        }
    }
}

#[test]
fn scenario_rebuild_with_same_seed_is_identical() {
    let table = sample_table();
    let mut first = scenario_chain();
    let mut rng = reseed(1234);
    first.build(&mut rng, &table).expect("scenario chain must build");
    let mut second = scenario_chain();
    let mut rng2 = reseed(1234);
    second.build(&mut rng2, &table).expect("scenario chain must build");
    assert_eq!(first.get_map().tiles, second.get_map().tiles);
    assert_eq!(first.get_spawn_list(), second.get_spawn_list());
    assert_eq!(first.get_starting_position(), second.get_starting_position());
}

#[test]
fn mushroom_builder_rebuild_is_identical() {
    let table = sample_table();
    let mut first = mushroom_builder(3, 80, 48, false);
    let mut rng = reseed(77);
    let r1 = first.build(&mut rng, &table);
    let mut second = mushroom_builder(3, 80, 48, false);
    let mut rng2 = reseed(77);
    let r2 = second.build(&mut rng2, &table);
    assert_eq!(r1, r2);
    assert_eq!(first.get_map().tiles, second.get_map().tiles);
    assert_eq!(first.get_spawn_list(), second.get_spawn_list());
}

#[test]
fn mushroom_builder_has_single_exit() {
    let table = sample_table();
    let mut chain = mushroom_builder(3, 80, 48, false);
    let mut rng = reseed(42);
    chain.build(&mut rng, &table).expect("grove chain must build");
    assert_eq!(count_stairs(&chain.get_map()), 1);
}

#[test]
fn snapshot_history_counts_every_step() {
    let table = sample_table();
    let mut chain = mushroom_builder(3, 80, 48, true);
    let mut rng = reseed(42);
    chain.build(&mut rng, &table).expect("grove chain must build");
    // one snapshot for the starting step plus one per appended step
    assert_eq!(chain.get_history().len(), 7);
    let last = &chain.get_history()[6];
    assert_eq!(last.tiles, chain.get_map().tiles);
}

#[test]
fn visualizer_off_records_no_history() {
    let table = sample_table();
    let mut chain = mushroom_builder(3, 80, 48, false);
    let mut rng = reseed(42);
    chain.build(&mut rng, &table).expect("grove chain must build");
    assert_eq!(chain.get_history().len(), 0);
}

#[test]
fn build_without_starting_step_fails() {
    let mut chain = BuilderChain::new(1, 20, 20, "Broken", false);
    chain.with(BuilderStep::CullUnreachable);
    let mut rng = reseed(1);
    let table = sample_table();
    assert_eq!(chain.build(&mut rng, &table), Err(MapBuildError::MissingStartingStep));
}

#[test]
fn cull_before_any_start_fails() {
    let mut chain = BuilderChain::new(1, 20, 20, "Broken", false);
    chain.start_with(BuilderStep::CellularAutomata);
    chain.with(BuilderStep::CullUnreachable);
    let mut rng = reseed(1);
    let table = sample_table();
    assert_eq!(chain.build(&mut rng, &table), Err(MapBuildError::MissingStartingPosition));
}

#[test]
fn start_selection_on_all_walls_fails() {
    // the starting step selects a position without carving any floor
    let mut chain = BuilderChain::new(1, 20, 20, "Broken", false);
    chain.start_with(BuilderStep::AreaStartingPosition { x: XStart::Center, y: YStart::Center });
    let mut rng = reseed(1);
    let table = sample_table();
    assert_eq!(chain.build(&mut rng, &table), Err(MapBuildError::NoFloorTiles));
}

#[test]
fn oversized_prefab_section_fails() {
    let mut chain = BuilderChain::new(1, 8, 8, "Tiny", false);
    chain.start_with(BuilderStep::CellularAutomata);
    chain.with(BuilderStep::PrefabSectional { section: underground_fort() });
    let mut rng = reseed(1);
    let table = sample_table();
    assert_eq!(chain.build(&mut rng, &table), Err(MapBuildError::SectionTooLarge));
}

#[test]
fn voronoi_spawns_stay_on_floor_and_under_cap() {
    let table = sample_table();
    let mut chain = scenario_chain();
    chain.with(BuilderStep::VoronoiSpawning);
    let mut rng = reseed(1234);
    chain.build(&mut rng, &table).expect("chain must build");
    let map = chain.get_map();
    let spawns = chain.get_spawn_list();
    // at depth 1 each of the 16 regions may hold at most 4 spawns
    assert!(spawns.len() <= 16 * 4);
    for (idx, tag) in spawns.iter() {
        assert!(*idx < map.tiles.len());
        assert_ne!(map.tiles[*idx], TileType::Wall);
        assert!(tag == "Goblin" || tag == "Orc" || tag == "Health Potion");
    }
}

#[test]
fn voronoi_membership_assigns_every_tile_to_nearest_seed() {
    let map = GridMap::new(1, 12, 12, "Test");
    let seeds = vec![(2, 2), (9, 2), (2, 9), (9, 9)];
    let regions = voronoi_membership(&map, &seeds);
    assert_eq!(regions.len(), map.tiles.len());
    for (i, r) in regions.iter().enumerate() {
        assert!(*r < seeds.len());
        let x = (i % 12) as i64;
        let y = (i / 12) as i64;
        let dist = |s: (i32, i32)| -> i64 {
            let dx = x - s.0 as i64;
            let dy = y - s.1 as i64;
            dx * dx + dy * dy
        };
        let own = dist(seeds[*r]);
        for (k, s) in seeds.iter().enumerate() {
            let d = dist(*s);
            assert!(own < d || (own == d && *r <= k), "tile {} not nearest-assigned", i);
        }
    }
}

#[test]
fn cellular_automata_walls_the_border() {
    let table = sample_table();
    let mut chain = BuilderChain::new(1, 30, 24, "Caves", false);
    chain.start_with(BuilderStep::CellularAutomata);
    let mut rng = reseed(8);
    chain.build(&mut rng, &table).expect("chain must build");
    let map = chain.get_map();
    let mut floors = 0;
    for y in 0..24 {
        for x in 0..30 {
            let t = map.tiles[map.xy_idx(x, y)];
            assert!(t == TileType::Wall || t == TileType::Floor);
            if x == 0 || y == 0 || x == 29 || y == 23 {
                assert_eq!(t, TileType::Wall);
            }
            if t == TileType::Floor {
                floors += 1;
            }
        }
    }
    assert!(floors > 0, "the carver should leave some open space");
}

#[test]
fn rooms_and_corridors_carves_disjoint_rooms() {
    let table = sample_table();
    let mut chain = BuilderChain::new(1, 60, 40, "Fort", false);
    chain.start_with(BuilderStep::RoomsAndCorridors { max_attempts: 240 });
    let mut rng = reseed(21);
    chain.build(&mut rng, &table).expect("chain must build");
    let rooms = chain.build_data.rooms.as_ref().expect("rooms must be recorded");
    assert!(rooms.len() >= 2, "expected several rooms");
    for (a, ra) in rooms.iter().enumerate() {
        assert!(ra.x1 >= 0 && ra.x2 < 59 && ra.y1 >= 0 && ra.y2 < 39);
        for rb in rooms.iter().skip(a + 1) {
            let overlap = ra.x1 <= rb.x2 && ra.x2 >= rb.x1 && ra.y1 <= rb.y2 && ra.y2 >= rb.y1;
            assert!(!overlap, "rooms must not touch");
        }
    }
    assert!(chain.build_data.corridors.is_some());
}

#[test]
fn level_builder_picks_a_chain_for_every_depth() {
    let table = sample_table();
    for depth in 1..=5 {
        let mut chain = level_builder(depth, 64, 48, false);
        let mut rng = reseed(1000 + depth as u64);
        let result = chain.build(&mut rng, &table);
        assert!(result.is_ok(), "depth {} failed: {:?}", depth, result);
        assert_eq!(chain.get_map().depth, depth);
        assert!(chain.get_starting_position().is_some());
        assert_eq!(count_stairs(&chain.get_map()), 1, "depth {} exit count", depth);
    }
}

#[test]
fn prefab_sections_are_wall_floor_only() {
    for section in [underground_fort(), drow_entry()] {
        assert_eq!(section.tiles.len(), (section.width * section.height) as usize);
        for t in section.tiles.iter() {
            assert!(*t == TileType::Wall || *t == TileType::Floor);
        }
        for (off, tag) in section.spawns.iter() {
            assert!(*off < section.tiles.len());
            assert_eq!(section.tiles[*off], TileType::Floor);
            assert!(!tag.is_empty());
        }
    }
}

#[test]
fn mushroom_entrance_stamps_the_fort() {
    let table = sample_table();
    let mut chain = mushroom_entrance(2, 80, 48, false);
    let mut rng = reseed(9);
    chain.build(&mut rng, &table).expect("entrance chain must build");
    let map = chain.get_map();
    let fort = underground_fort();
    // the fort sits against the right edge, vertically centred; it is
    // stamped before the culling pass, so its walls persist while a floor
    // tile may have been walled off (if unreachable) or turned into the
    // staircase
    let x0 = 80 - fort.width;
    let y0 = (48 - fort.height) / 2;
    let mut fort_floor = 0;
    for sy in 0..fort.height {
        for sx in 0..fort.width {
            let expected = fort.tiles[(sy * fort.width + sx) as usize];
            let got = map.tiles[map.xy_idx(x0 + sx, y0 + sy)];
            if expected == TileType::Wall {
                assert_eq!(got, TileType::Wall);
            } else if got == TileType::Floor {
                fort_floor += 1;
            }
        }
    }
    assert!(fort_floor > 0, "some of the fort should survive culling");
}

#[test]
fn prefab_sections_decode_the_drawn_rows() {
    // the same drawings, written here row by row so a decoding slip in the
    // library's literals cannot hide
    let fort_rows = [
        "############",
        "#     #    #",
        "# ### # ## #",
        "# #     #  #",
        "  # ### #g #",
        "  # #o# ## #",
        "  # #   #  #",
        "# ### # ####",
        "#     #    #",
        "# ##### ## #",
        "#       #g #",
        "#  ##   #! #",
        "############",
    ];
    let fort = underground_fort();
    assert_eq!(fort.width, 12);
    assert_eq!(fort.height, 13);
    for (r, row) in fort_rows.iter().enumerate() {
        for (c, ch) in row.bytes().enumerate() {
            let expected = if ch == b'#' { TileType::Wall } else { TileType::Floor };
            assert_eq!(
                fort.tiles[r * 12 + c],
                expected,
                "fort row {} column {} decoded wrongly",
                r,
                c
            );
        }
    }
    // the drawn gaps on the fort's left side really are floor
    assert_eq!(fort.tiles[4 * 12], TileType::Floor);
    assert_eq!(fort.tiles[5 * 12], TileType::Floor);
    assert_eq!(fort.tiles[6 * 12], TileType::Floor);
    let drow_rows = [
        "############",
        "#          #",
        "# ######## #",
        "  #  g   #  ",
        "# #  o   # #",
        "# #      # #",
        "  #  g   #  ",
        "# ######## #",
        "#          #",
        "############",
    ];
    let drow = drow_entry();
    assert_eq!(drow.width, 12);
    assert_eq!(drow.height, 10);
    for (r, row) in drow_rows.iter().enumerate() {
        for (c, ch) in row.bytes().enumerate() {
            let expected = if ch == b'#' { TileType::Wall } else { TileType::Floor };
            assert_eq!(
                drow.tiles[r * 12 + c],
                expected,
                "drow row {} column {} decoded wrongly",
                r,
                c
            );
        }
    }
}

#[test]
fn mushroom_entrance_is_reachable_with_single_exit() {
    let table = sample_table();
    let mut chain = mushroom_entrance(2, 80, 48, false);
    let mut rng = reseed(9);
    chain.build(&mut rng, &table).expect("entrance chain must build");
    let map = chain.get_map();
    let start = chain.get_starting_position().expect("a start must be set");
    let start_idx = map.xy_idx(start.x, start.y);
    assert_ne!(map.tiles[start_idx], TileType::Wall);
    assert_eq!(count_stairs(&map), 1);
    let seen = flood_from(&map, start_idx);
    for (i, tile) in map.tiles.iter().enumerate() {
        if *tile != TileType::Wall {
            assert!(seen[i], "tile {} is walkable but unreachable", i);
        }
    }
}

#[test]
fn mushroom_exit_is_reachable_with_single_exit() {
    let table = sample_table();
    let mut chain = mushroom_exit(4, 80, 48, false);
    let mut rng = reseed(31);
    chain.build(&mut rng, &table).expect("exit chain must build");
    let map = chain.get_map();
    let start = chain.get_starting_position().expect("a start must be set");
    let start_idx = map.xy_idx(start.x, start.y);
    assert_ne!(map.tiles[start_idx], TileType::Wall);
    assert_eq!(count_stairs(&map), 1);
    let seen = flood_from(&map, start_idx);
    for (i, tile) in map.tiles.iter().enumerate() {
        if *tile != TileType::Wall {
            assert!(seen[i], "tile {} is walkable but unreachable", i);
        }
    }
}

#[test]
fn mushroom_exit_rebuild_is_identical() {
    let table = sample_table();
    let mut first = mushroom_exit(4, 80, 48, false);
    let mut rng = reseed(31);
    let r1 = first.build(&mut rng, &table);
    let mut second = mushroom_exit(4, 80, 48, false);
    let mut rng2 = reseed(31);
    let r2 = second.build(&mut rng2, &table);
    assert_eq!(r1, r2);
    assert_eq!(first.get_map().tiles, second.get_map().tiles);
    assert_eq!(first.get_spawn_list(), second.get_spawn_list());
}
