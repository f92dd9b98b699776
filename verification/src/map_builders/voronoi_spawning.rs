//! Voronoi-region spawn placement: partitions the grid into regions around
//! randomly chosen seed points (nearest-seed assignment, first seed winning
//! ties), then rolls the spawn table for each region's floor tiles, capped
//! by a per-region density constraint tied to the map's depth.

use vstd::prelude::*;

verus! {

use crate::map::{GridMap, TileType};
use crate::map_builders::BuilderMap;
use crate::map_builders::cull_unreachable::walkable_at;
use crate::rng::{next_state, range_result, roll_result, roll_state, RandomSource};
use crate::spawn_table::{pick_index, weight_sum, SpawnTable, SpawnTableEntry};

/// How many seed points a spawning pass scatters.
pub const VORONOI_SEED_COUNT: i32 = 16;

/// The flat part of the per-region spawn cap.
pub const MAX_REGION_SPAWNS: i32 = 4;

/// The depth-scaled part of the per-region spawn cap.
pub open spec fn depth_bonus(depth: int) -> int {
    if depth <= 1 {
        0
    } else if depth > 100 {
        99
    } else {
        depth - 1
    }
}

/// The most spawns one region may receive at a given depth.
pub open spec fn region_spawn_cap(depth: int) -> int {
    MAX_REGION_SPAWNS as int + depth_bonus(depth)
}

/// Squared distance from (x, y) to the seed point `s`.
pub open spec fn seed_dist2(s: (i32, i32), x: int, y: int) -> int {
    (x - s.0 as int) * (x - s.0 as int) + (y - s.1 as int) * (y - s.1 as int)
}

/// Seed `r` is the region of (x, y): no seed is strictly nearer, and no
/// equally-near seed has a smaller index.
pub open spec fn nearest_seed(seeds: Seq<(i32, i32)>, x: int, y: int, r: int) -> bool {
    &&& 0 <= r < seeds.len()
    &&& forall|k: int|
        0 <= k < seeds.len() ==> seed_dist2(seeds[r], x, y) < seed_dist2(
            #[trigger] seeds[k],
            x,
            y,
        ) || (seed_dist2(seeds[r], x, y) == seed_dist2(seeds[k], x, y) && r <= k)
}

/// A tile's region is unique: any two seeds satisfying the nearest-seed
/// contract for the same tile coincide.  Together with `voronoi_membership`
/// assigning some region to every tile, each floor tile belongs to exactly
/// one Voronoi region.
pub proof fn lemma_nearest_seed_unique(seeds: Seq<(i32, i32)>, x: int, y: int, r1: int, r2: int)
    requires
        nearest_seed(seeds, x, y, r1),
        nearest_seed(seeds, x, y, r2),
    ensures
        r1 == r2,
{
    assert(seed_dist2(seeds[r1], x, y) < seed_dist2(seeds[r2], x, y) || (seed_dist2(
        seeds[r1],
        x,
        y,
    ) == seed_dist2(seeds[r2], x, y) && r1 <= r2));
    assert(seed_dist2(seeds[r2], x, y) < seed_dist2(seeds[r1], x, y) || (seed_dist2(
        seeds[r2],
        x,
        y,
    ) == seed_dist2(seeds[r1], x, y) && r2 <= r1));
}

/// Assigns every tile to its nearest seed, the first seed winning ties:
/// the membership vector gives each tile exactly one region.
pub fn voronoi_membership(map: &GridMap, seeds: &Vec<(i32, i32)>) -> (regions: Vec<usize>)
    requires
        map.wf(),
        seeds@.len() >= 1,
        forall|k: int|
            0 <= k < seeds@.len() ==> 0 <= (#[trigger] seeds@[k]).0 < map.width && 0 <= seeds@[k].1
                < map.height,
    ensures
        regions@.len() == map.tiles@.len(),
        forall|i: int|
            0 <= i < regions@.len() ==> nearest_seed(
                seeds@,
                i % (map.width as int),
                i / (map.width as int),
                (#[trigger] regions@[i]) as int,
            ),
{
    let n: usize = map.tiles.len();
    let ns: usize = seeds.len();
    let mut regions: Vec<usize> = Vec::new();
    let mut i: usize = 0;
    while i < n
        invariant
            map.wf(),
            n == map.tiles@.len(),
            ns == seeds@.len(),
            ns >= 1,
            forall|k: int|
                0 <= k < seeds@.len() ==> 0 <= (#[trigger] seeds@[k]).0 < map.width && 0
                    <= seeds@[k].1 < map.height,
            i <= n,
            regions@.len() == i,
            forall|j: int|
                0 <= j < i ==> nearest_seed(
                    seeds@,
                    j % (map.width as int),
                    j / (map.width as int),
                    (#[trigger] regions@[j]) as int,
                ),
        decreases n - i,
    {
        let p: (i32, i32) = map.idx_xy(i);
        proof {
            crate::map::lemma_xy_idx_roundtrip(
                map.width as int,
                map.height as int,
                p.0 as int,
                p.1 as int,
            );
        }
        let mut best: usize = 0;
        let mut best_d: i64 = seed_distance(map, seeds, 0, p.0, p.1);
        let mut k: usize = 1;
        while k < ns
            invariant
                map.wf(),
                ns == seeds@.len(),
                forall|t: int|
                    0 <= t < seeds@.len() ==> 0 <= (#[trigger] seeds@[t]).0 < map.width && 0
                        <= seeds@[t].1 < map.height,
                map.in_bounds(p.0 as int, p.1 as int),
                1 <= k <= ns,
                (best as int) < k,
                best_d == seed_dist2(seeds@[best as int], p.0 as int, p.1 as int),
                forall|t: int|
                    0 <= t < k ==> (best_d as int) < seed_dist2(
                        #[trigger] seeds@[t],
                        p.0 as int,
                        p.1 as int,
                    ) || ((best_d as int) == seed_dist2(seeds@[t], p.0 as int, p.1 as int)
                        && best as int <= t),
            decreases ns - k,
        {
            let d: i64 = seed_distance(map, seeds, k, p.0, p.1);
            if d < best_d {
                best = k;
                best_d = d;
            }
            k = k + 1;
        }
        regions.push(best);
        i = i + 1;
    }
    regions
}

/// Squared distance from (x, y) to seed number `k`, overflow-free.
fn seed_distance(map: &GridMap, seeds: &Vec<(i32, i32)>, k: usize, x: i32, y: i32) -> (d: i64)
    requires
        map.wf(),
        k < seeds@.len(),
        0 <= seeds@[k as int].0 < map.width,
        0 <= seeds@[k as int].1 < map.height,
        map.in_bounds(x as int, y as int),
    ensures
        d == seed_dist2(seeds@[k as int], x as int, y as int),
{
    let s: (i32, i32) = seeds[k];
    proof {
        lemma_seed_dist2_fits(
            x as int,
            y as int,
            s.0 as int,
            s.1 as int,
            map.width as int,
            map.height as int,
        );
    }
    let dx: i64 = (x as i64) - (s.0 as i64);
    let dy: i64 = (y as i64) - (s.1 as i64);
    dx * dx + dy * dy
}

/// Squared distances between two on-map points stay far from the 64-bit
/// limit.
proof fn lemma_seed_dist2_fits(x: int, y: int, sx: int, sy: int, w: int, h: int)
    by (nonlinear_arith)
    requires
        1 <= w,
        1 <= h,
        w * h <= 16_000_000,
        0 <= x < w,
        0 <= y < h,
        0 <= sx < w,
        0 <= sy < h,
    ensures
        0 <= (x - sx) * (x - sx) <= 0x1000_0000_0000_0000,
        0 <= (y - sy) * (y - sy) <= 0x1000_0000_0000_0000,
{
}

/// How many spawns one region attempts: a dice roll plus the depth bonus,
/// clamped to zero and to the region's size.
pub open spec fn spawn_count(s: u64, depth: int, area_len: int) -> int {
    let raw = roll_result(s, 1, MAX_REGION_SPAWNS as int + 3) + depth_bonus(depth) - 3;
    let clamped = if raw < 0 {
        0int
    } else {
        raw
    };
    let cap = if area_len > 1000000 {
        1000000int
    } else {
        area_len
    };
    if clamped > cap {
        cap
    } else {
        clamped
    }
}

/// The spawns `n` region rounds produce from candidate tiles `cands`,
/// generator state `s` and the table's entries, paired with the state the
/// generator is left in: each round draws a candidate slot, swap-removes
/// that tile from the pool, and — for a non-empty table — rolls its tag.
pub open spec fn spawn_rounds(
    cands: Seq<usize>,
    s: u64,
    entries: Seq<SpawnTableEntry>,
    n: int,
) -> (Seq<(usize, Seq<char>)>, u64)
    decreases n,
{
    if n <= 0 || cands.len() == 0 {
        (Seq::empty(), s)
    } else {
        let pick = range_result(s, 0, cands.len() as int);
        let idx = cands[pick];
        let cands2 = cands.update(pick, cands.last()).drop_last();
        let s2 = next_state(s);
        if entries.len() == 0 {
            spawn_rounds(cands2, s2, entries, n - 1)
        } else {
            let k = pick_index(entries, range_result(s2, 0, weight_sum(entries)));
            let s3 = next_state(s2);
            let r = spawn_rounds(cands2, s3, entries, n - 1);
            (seq![(idx, entries[k].name@)] + r.0, r.1)
        }
    }
}

/// Rolls the spawn table for one region: at most `region_spawn_cap(depth)`
/// spawns, each on a distinct tile drawn from `area`, each tag drawn from
/// the table — and exactly the spawns that `spawn_rounds` derives from the
/// incoming generator state.
pub fn spawn_region(data: &mut BuilderMap, rng: &mut RandomSource, area: &Vec<usize>, table: &SpawnTable)
    requires
        old(data).wf(),
        table.wf(),
        area@.len() <= 16_000_000,
        forall|k: int|
            0 <= k < area@.len() ==> walkable_at(
                old(data).map.tiles@,
                (#[trigger] area@[k]) as int,
            ),
    ensures
        final(data).wf(),
        final(data).map == old(data).map,
        final(data).starting_position == old(data).starting_position,
        final(data).rooms == old(data).rooms,
        final(data).corridors == old(data).corridors,
        final(data).history@ == old(data).history@,
        final(data).width == old(data).width,
        final(data).height == old(data).height,
        final(data).show_snapshots == old(data).show_snapshots,
        final(data).spawn_list@.len() >= old(data).spawn_list@.len(),
        final(data).spawn_list@.len() <= old(data).spawn_list@.len() + region_spawn_cap(
            old(data).map.depth as int,
        ),
        final(data).spawn_list@.len() <= old(data).spawn_list@.len() + area@.len(),
        forall|i: int|
            0 <= i < old(data).spawn_list@.len() ==> final(data).spawn_list@[i] == old(
                data,
            ).spawn_list@[i],
        forall|i: int|
            old(data).spawn_list@.len() <= i < final(data).spawn_list@.len() ==> walkable_at(
                final(data).map.tiles@,
                (#[trigger] final(data).spawn_list@[i]).0 as int,
            ),
        area@.len() == 0 ==> final(data).spawn_list@ == old(data).spawn_list@ && final(rng)@ == old(rng)@,
        area@.len() > 0 ==> {
            let rounds = spawn_rounds(
                area@,
                next_state(old(rng)@),
                table.entries@,
                spawn_count(old(rng)@, old(data).map.depth as int, area@.len() as int),
            );
            &&& final(data).spawn_list@.len() == old(data).spawn_list@.len() + rounds.0.len()
            &&& (forall|i: int|
                0 <= i < rounds.0.len() ==> (#[trigger] final(data).spawn_list@[old(
                    data,
                ).spawn_list@.len() + i]).0 == rounds.0[i].0 && final(data).spawn_list@[old(
                    data,
                ).spawn_list@.len() + i].1@ == rounds.0[i].1)
            &&& final(rng)@ == rounds.1
        },
{
    if area.len() == 0 {
        return ;
    }
    let ghost s0 = rng@;
    let depth: i32 = data.map.depth;
    let bonus: i32 = if depth <= 1 {
        0
    } else if depth > 100 {
        99
    } else {
        depth - 1
    };
    let roll: i32 = rng.roll_dice(1, MAX_REGION_SPAWNS + 3);
    let mut num: i32 = roll + bonus - 3;
    if num < 0 {
        num = 0;
    }
    let area_len: i32 = if area.len() > 1000000 {
        1000000
    } else {
        area.len() as i32
    };
    if num > area_len {
        num = area_len;
    }
    let ghost s1 = rng@;
    proof {
        assert(roll_state(s0, 1) == roll_state(next_state(s0), 0));
        assert(roll_state(next_state(s0), 0) == next_state(s0));
        assert(s1 == next_state(s0));
        assert(num as int == spawn_count(s0, data.map.depth as int, area@.len() as int));
    }
    let ghost rounds_full = spawn_rounds(area@, s1, table.entries@, num as int);
    let ghost mut added: Seq<(usize, Seq<char>)> = Seq::empty();
    let mut candidates: Vec<usize> = Vec::new();
    let mut c: usize = 0;
    while c < area.len()
        invariant
            c <= area@.len(),
            candidates@.len() == c,
            forall|k: int| 0 <= k < c ==> candidates@[k] == area@[k],
        decreases area@.len() - c,
    {
        candidates.push(area[c]);
        c = c + 1;
    }
    proof {
        assert(candidates@ =~= area@);
        assert(added + spawn_rounds(candidates@, rng@, table.entries@, num as int).0
            =~= spawn_rounds(candidates@, rng@, table.entries@, num as int).0);
    }
    let ghost base = data.spawn_list@.len() as int;
    let mut done: i32 = 0;
    while done < num
        invariant
            data.wf(),
            table.wf(),
            data.map == old(data).map,
            data.starting_position == old(data).starting_position,
            data.rooms == old(data).rooms,
            data.corridors == old(data).corridors,
            data.history@ == old(data).history@,
            data.width == old(data).width,
            data.height == old(data).height,
            data.show_snapshots == old(data).show_snapshots,
            base == old(data).spawn_list@.len(),
            0 <= done <= num,
            num <= region_spawn_cap(old(data).map.depth as int),
            num <= area@.len(),
            area@.len() <= 16_000_000,
            candidates@.len() <= area@.len(),
            candidates@.len() + done >= num,
            forall|k: int|
                0 <= k < candidates@.len() ==> walkable_at(
                    old(data).map.tiles@,
                    (#[trigger] candidates@[k]) as int,
                ),
            data.spawn_list@.len() >= base,
            data.spawn_list@.len() <= base + done,
            forall|i: int| 0 <= i < base ==> data.spawn_list@[i] == old(data).spawn_list@[i],
            forall|i: int|
                base <= i < data.spawn_list@.len() ==> walkable_at(
                    old(data).map.tiles@,
                    (#[trigger] data.spawn_list@[i]).0 as int,
                ),
            rounds_full == spawn_rounds(area@, s1, table.entries@, num as int),
            rounds_full.0 == added + spawn_rounds(
                candidates@,
                rng@,
                table.entries@,
                (num - done) as int,
            ).0,
            rounds_full.1 == spawn_rounds(candidates@, rng@, table.entries@, (num - done) as int).1,
            added.len() == data.spawn_list@.len() - base,
            forall|i: int|
                0 <= i < added.len() ==> (#[trigger] data.spawn_list@[base + i]).0 == added[i].0
                    && data.spawn_list@[base + i].1@ == added[i].1,
        decreases num - done,
    {
        let ghost cands_pre = candidates@;
        let ghost s_pre = rng@;
        let clen: usize = candidates.len();
        let pick: i32 = rng.range(0, clen as i32);
        let idx: usize = candidates[pick as usize];
        candidates.swap_remove(pick as usize);
        proof {
            assert(pick as int == range_result(s_pre, 0, cands_pre.len() as int));
            assert(idx == cands_pre[pick as int]);
            assert(candidates@ == cands_pre.update(pick as int, cands_pre.last()).drop_last());
        }
        match table.roll(rng) {
            Some(tag) => {
                proof {
                    let entries = table.entries@;
                    let kk = pick_index(entries, range_result(next_state(s_pre), 0, weight_sum(entries)));
                    assert(tag@ == entries[kk].name@);
                    assert(spawn_rounds(cands_pre, s_pre, entries, (num - done) as int) == (
                        seq![(idx, entries[kk].name@)] + spawn_rounds(
                            candidates@,
                            rng@,
                            entries,
                            (num - done) as int - 1,
                        ).0,
                        spawn_rounds(candidates@, rng@, entries, (num - done) as int - 1).1,
                    ));
                    let old_added = added;
                    added = added + seq![(idx, tag@)];
                    assert(rounds_full.0 =~= added + spawn_rounds(
                        candidates@,
                        rng@,
                        entries,
                        (num - done) as int - 1,
                    ).0);
                }
                data.spawn_list.push((idx, tag));
            },
            None => {
                proof {
                    let entries = table.entries@;
                    assert(entries.len() == 0);
                    assert(spawn_rounds(cands_pre, s_pre, entries, (num - done) as int)
                        == spawn_rounds(candidates@, rng@, entries, (num - done) as int - 1));
                }
            },
        }
        done = done + 1;
    }
    proof {
        assert(spawn_rounds(candidates@, rng@, table.entries@, 0).0 =~= Seq::<(
            usize,
            Seq<char>,
        )>::empty());
        assert(rounds_full.0 =~= added);
    }
}

/// The walkable tiles among the first `i` indices that belong to region
/// `r`, in index order: the candidate pool one region's rounds draw from.
pub open spec fn region_area(
    tiles: Seq<TileType>,
    regions: Seq<usize>,
    r: int,
    i: int,
) -> Seq<usize>
    decreases i,
{
    if i <= 0 {
        Seq::empty()
    } else {
        let rest = region_area(tiles, regions, r, i - 1);
        if walkable_at(tiles, i - 1) && (regions[i - 1] as int) == r {
            rest.push((i - 1) as usize)
        } else {
            rest
        }
    }
}

/// The spawns every region from `r` on produces, with the generator state
/// left after: each region draws its round count and runs its rounds over
/// its own candidate pool; a region with no walkable tiles draws nothing.
pub open spec fn voronoi_fold(
    tiles: Seq<TileType>,
    regions: Seq<usize>,
    entries: Seq<SpawnTableEntry>,
    depth: int,
    s: u64,
    r: int,
) -> (Seq<(usize, Seq<char>)>, u64)
    decreases (VORONOI_SEED_COUNT as int) - r,
{
    if r < 0 || r >= VORONOI_SEED_COUNT as int {
        (Seq::empty(), s)
    } else {
        let area = region_area(tiles, regions, r, tiles.len() as int);
        if area.len() == 0 {
            voronoi_fold(tiles, regions, entries, depth, s, r + 1)
        } else {
            let rounds = spawn_rounds(
                area,
                next_state(s),
                entries,
                spawn_count(s, depth, area.len() as int),
            );
            let rest = voronoi_fold(tiles, regions, entries, depth, rounds.1, r + 1);
            (rounds.0 + rest.0, rest.1)
        }
    }
}

/// The full account of one spawning pass: the seeds are the generator's
/// first draws, every tile's region is its nearest seed, and the spawns
/// appended to the list — and the generator's final state — are exactly
/// what the per-region rounds derive.
pub open spec fn voronoi_outcome(
    regions: Seq<usize>,
    seeds: Seq<(i32, i32)>,
    tiles: Seq<TileType>,
    w: int,
    h: int,
    depth: int,
    entries: Seq<SpawnTableEntry>,
    s0: u64,
    pre_spawns: Seq<(usize, String)>,
    post_spawns: Seq<(usize, String)>,
    s1: u64,
) -> bool {
    let fold = voronoi_fold(
        tiles,
        regions,
        entries,
        depth,
        roll_state(s0, 2 * (VORONOI_SEED_COUNT as int)),
        0,
    );
    &&& seeds.len() == VORONOI_SEED_COUNT as int
    &&& (forall|k: int|
        0 <= k < seeds.len() ==> ((#[trigger] seeds[k]).0 as int) == range_result(
            roll_state(s0, 2 * k),
            1,
            w - 1,
        ) && (seeds[k].1 as int) == range_result(roll_state(s0, 2 * k + 1), 1, h - 1))
    &&& regions.len() == tiles.len()
    &&& (forall|i: int|
        0 <= i < regions.len() ==> nearest_seed(seeds, i % w, i / w, (#[trigger] regions[i]) as int))
    &&& post_spawns.len() == pre_spawns.len() + fold.0.len()
    &&& (forall|i: int|
        0 <= i < fold.0.len() ==> (#[trigger] post_spawns[pre_spawns.len() + i]).0 == fold.0[i].0
            && post_spawns[pre_spawns.len() + i].1@ == fold.0[i].1)
    &&& s1 == fold.1
}

/// Scatters spawns over the map: seeds random region centres, assigns every
/// tile to its nearest seed, and rolls the spawn table once per region over
/// that region's walkable tiles.  The grid itself is untouched; only the
/// spawn list grows, by at most the per-region cap for every region — and
/// on any grid at least three tiles wide and high, the seeds, the region
/// assignment and the added spawns are exactly the ones the generator
/// state derives.
pub fn voronoi_spawning(data: &mut BuilderMap, rng: &mut RandomSource, table: &SpawnTable)
    requires
        old(data).wf(),
        table.wf(),
    ensures
        final(data).wf(),
        final(data).map == old(data).map,
        final(data).starting_position == old(data).starting_position,
        final(data).rooms == old(data).rooms,
        final(data).corridors == old(data).corridors,
        final(data).history@ == old(data).history@,
        final(data).width == old(data).width,
        final(data).height == old(data).height,
        final(data).show_snapshots == old(data).show_snapshots,
        final(data).spawn_list@.len() >= old(data).spawn_list@.len(),
        final(data).spawn_list@.len() <= old(data).spawn_list@.len() + (VORONOI_SEED_COUNT as int)
            * region_spawn_cap(old(data).map.depth as int),
        forall|i: int|
            0 <= i < old(data).spawn_list@.len() ==> final(data).spawn_list@[i] == old(
                data,
            ).spawn_list@[i],
        forall|i: int|
            old(data).spawn_list@.len() <= i < final(data).spawn_list@.len() ==> walkable_at(
                final(data).map.tiles@,
                (#[trigger] final(data).spawn_list@[i]).0 as int,
            ),
        (old(data).width < 3 || old(data).height < 3) ==> final(data).spawn_list@ == old(data).spawn_list@ && final(rng)@ == old(rng)@,
        (old(data).width >= 3 && old(data).height >= 3) ==> exists|
            regions: Seq<usize>,
            seeds: Seq<(i32, i32)>,
        |
            #[trigger] voronoi_outcome(
                regions,
                seeds,
                old(data).map.tiles@,
                old(data).width as int,
                old(data).height as int,
                old(data).map.depth as int,
                table.entries@,
                old(rng)@,
                old(data).spawn_list@,
                final(data).spawn_list@,
                final(rng)@,
            ),
{
    if data.width < 3 || data.height < 3 {
        return ;
    }
    let ghost s0 = rng@;
    let w: i32 = data.width;
    let h: i32 = data.height;
    let mut seeds: Vec<(i32, i32)> = Vec::new();
    let mut s: usize = 0;
    while s < (VORONOI_SEED_COUNT as usize)
        invariant
            data.wf(),
            w == data.width,
            h == data.height,
            3 <= w,
            3 <= h,
            s <= VORONOI_SEED_COUNT as usize,
            seeds@.len() == s,
            rng@ == roll_state(s0, 2 * (s as int)),
            forall|k: int|
                0 <= k < seeds@.len() ==> 0 <= (#[trigger] seeds@[k]).0 < w && 0 <= seeds@[k].1
                    < h,
            forall|k: int|
                0 <= k < seeds@.len() ==> ((#[trigger] seeds@[k]).0 as int) == range_result(
                    roll_state(s0, 2 * k),
                    1,
                    w as int - 1,
                ) && (seeds@[k].1 as int) == range_result(
                    roll_state(s0, 2 * k + 1),
                    1,
                    h as int - 1,
                ),
        decreases VORONOI_SEED_COUNT as usize - s,
    {
        let sx: i32 = rng.range(1, w - 1);
        proof {
            crate::rng::lemma_roll_state_add(s0, 2 * (s as int), 1);
            assert(roll_state(roll_state(s0, 2 * (s as int)), 1) == roll_state(
                next_state(roll_state(s0, 2 * (s as int))),
                0,
            ));
        }
        let sy: i32 = rng.range(1, h - 1);
        proof {
            crate::rng::lemma_roll_state_add(s0, 2 * (s as int) + 1, 1);
            assert(roll_state(roll_state(s0, 2 * (s as int) + 1), 1) == roll_state(
                next_state(roll_state(s0, 2 * (s as int) + 1)),
                0,
            ));
        }
        seeds.push((sx, sy));
        s = s + 1;
    }
    let regions: Vec<usize> = voronoi_membership(&data.map, &seeds);
    let n: usize = data.map.tiles.len();
    let ghost tiles0 = data.map.tiles@;
    let ghost s32 = rng@;
    let ghost fold_full = voronoi_fold(
        tiles0,
        regions@,
        table.entries@,
        data.map.depth as int,
        s32,
        0,
    );
    let ghost mut added_v: Seq<(usize, Seq<char>)> = Seq::empty();
    proof {
        assert(added_v + voronoi_fold(tiles0, regions@, table.entries@, data.map.depth as int, s32, 0).0
            =~= voronoi_fold(tiles0, regions@, table.entries@, data.map.depth as int, s32, 0).0);
    }
    let ghost base = data.spawn_list@.len() as int;
    let mut r: usize = 0;
    while r < (VORONOI_SEED_COUNT as usize)
        invariant
            data.wf(),
            table.wf(),
            data.map == old(data).map,
            data.starting_position == old(data).starting_position,
            data.rooms == old(data).rooms,
            data.corridors == old(data).corridors,
            data.history@ == old(data).history@,
            data.width == old(data).width,
            data.height == old(data).height,
            data.show_snapshots == old(data).show_snapshots,
            n == data.map.tiles@.len(),
            regions@.len() == n,
            base == old(data).spawn_list@.len(),
            r <= VORONOI_SEED_COUNT as usize,
            data.spawn_list@.len() >= base,
            data.spawn_list@.len() <= base + (r as int) * region_spawn_cap(
                old(data).map.depth as int,
            ),
            forall|i: int| 0 <= i < base ==> data.spawn_list@[i] == old(data).spawn_list@[i],
            forall|i: int|
                base <= i < data.spawn_list@.len() ==> walkable_at(
                    old(data).map.tiles@,
                    (#[trigger] data.spawn_list@[i]).0 as int,
                ),
            tiles0 == data.map.tiles@,
            fold_full == voronoi_fold(tiles0, regions@, table.entries@, old(data).map.depth as int, s32, 0),
            fold_full.0 == added_v + voronoi_fold(
                tiles0,
                regions@,
                table.entries@,
                old(data).map.depth as int,
                rng@,
                r as int,
            ).0,
            fold_full.1 == voronoi_fold(
                tiles0,
                regions@,
                table.entries@,
                old(data).map.depth as int,
                rng@,
                r as int,
            ).1,
            added_v.len() == data.spawn_list@.len() - base,
            forall|i: int|
                0 <= i < added_v.len() ==> (#[trigger] data.spawn_list@[base + i]).0
                    == added_v[i].0 && data.spawn_list@[base + i].1@ == added_v[i].1,
        decreases VORONOI_SEED_COUNT as usize - r,
    {
        let mut area: Vec<usize> = Vec::new();
        let mut i: usize = 0;
        while i < n
            invariant
                data.wf(),
                n == data.map.tiles@.len(),
                tiles0 == data.map.tiles@,
                regions@.len() == n,
                i <= n,
                area@.len() <= i,
                area@ == region_area(tiles0, regions@, r as int, i as int),
                forall|k: int|
                    0 <= k < area@.len() ==> walkable_at(
                        data.map.tiles@,
                        (#[trigger] area@[k]) as int,
                    ),
            decreases n - i,
        {
            if data.map.tiles[i].is_walkable() && regions[i] == r {
                area.push(i);
            }
            i = i + 1;
        }
        proof {
            lemma_cap_step(
                r as int,
                region_spawn_cap(old(data).map.depth as int),
                data.spawn_list@.len() as int - base,
            );
        }
        let ghost rng_pre = rng@;
        let ghost sl_pre = data.spawn_list@;
        spawn_region(data, rng, &area, table);
        proof {
            let entries = table.entries@;
            let depth = old(data).map.depth as int;
            if area@.len() == 0 {
                assert(voronoi_fold(tiles0, regions@, entries, depth, rng_pre, r as int)
                    == voronoi_fold(tiles0, regions@, entries, depth, rng@, r as int + 1));
            } else {
                let rounds = spawn_rounds(
                    area@,
                    next_state(rng_pre),
                    entries,
                    spawn_count(rng_pre, depth, area@.len() as int),
                );
                assert(voronoi_fold(tiles0, regions@, entries, depth, rng_pre, r as int) == (
                    rounds.0 + voronoi_fold(tiles0, regions@, entries, depth, rounds.1, r as int + 1).0,
                    voronoi_fold(tiles0, regions@, entries, depth, rounds.1, r as int + 1).1,
                ));
                let old_added = added_v;
                added_v = added_v + rounds.0;
                assert(fold_full.0 =~= added_v + voronoi_fold(
                    tiles0,
                    regions@,
                    entries,
                    depth,
                    rng@,
                    r as int + 1,
                ).0);
                assert(sl_pre.len() == base + old_added.len());
                assert(data.spawn_list@.len() == sl_pre.len() + rounds.0.len());
                assert forall|i2: int|
                    0 <= i2 < added_v.len() implies (#[trigger] data.spawn_list@[base + i2]).0
                    == added_v[i2].0 && data.spawn_list@[base + i2].1@ == added_v[i2].1 by {
                    if i2 < old_added.len() {
                        assert(added_v[i2] == old_added[i2]);
                        assert(base + i2 < sl_pre.len());
                        assert(data.spawn_list@[base + i2] == sl_pre[base + i2]);
                        assert(sl_pre[base + i2].0 == old_added[i2].0 && sl_pre[base + i2].1@
                            == old_added[i2].1);
                    } else {
                        let j = i2 - old_added.len();
                        assert(added_v[i2] == rounds.0[j]);
                        assert(data.spawn_list@[sl_pre.len() + j].0 == rounds.0[j].0
                            && data.spawn_list@[sl_pre.len() + j].1@ == rounds.0[j].1);
                        assert(base + i2 == sl_pre.len() + j);
                    }
                }
            }
        }
        r = r + 1;
    }
    proof {
        assert(voronoi_fold(tiles0, regions@, table.entries@, old(data).map.depth as int, rng@, VORONOI_SEED_COUNT as int).0
            =~= Seq::<(usize, Seq<char>)>::empty());
        assert(fold_full.0 =~= added_v);
        assert(s32 == roll_state(s0, 2 * (VORONOI_SEED_COUNT as int)));
        assert(voronoi_outcome(
            regions@,
            seeds@,
            old(data).map.tiles@,
            old(data).width as int,
            old(data).height as int,
            old(data).map.depth as int,
            table.entries@,
            s0,
            old(data).spawn_list@,
            data.spawn_list@,
            rng@,
        ));
    }
}

/// One more capped region keeps the running total under the next multiple
/// of the cap.
proof fn lemma_cap_step(r: int, cap: int, used: int)
    by (nonlinear_arith)
    requires
        0 <= r,
        0 <= cap,
        0 <= used <= r * cap,
    ensures
        used + cap <= (r + 1) * cap,
{
}

} // verus!
