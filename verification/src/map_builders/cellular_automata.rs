//! Cellular-automata cave carving: random wall/floor noise smoothed by a
//! neighbour-count rule over a fixed number of generations, converging to
//! organic cave shapes.  The border row and column always remain walls,
//! and the whole result is pinned as a function of the grid size and the
//! generator state, so a seed rebuilds the same caves.

use vstd::prelude::*;

verus! {

use crate::map::{GridMap, TileType};
use crate::map_builders::{only_wall_floor, BuilderMap};
use crate::rng::{lemma_roll_state_add, roll_result, roll_state, RandomSource};

/// How many smoothing generations run after the initial noise.
pub const SMOOTHING_GENERATIONS: i32 = 10;

/// The noise roll (out of 100) above which a tile starts as floor.
pub const NOISE_FLOOR_PERCENT: i32 = 45;

/// Tile index `i` lies on the map's border row or column.
pub open spec fn is_border(w: int, h: int, i: int) -> bool {
    i % w == 0 || i % w == w - 1 || i / w == 0 || i / w == h - 1
}

/// Every border tile of the grid is a wall.
pub open spec fn border_walls(m: GridMap) -> bool {
    forall|i: int|
        0 <= i < m.tiles@.len() && is_border(m.width as int, m.height as int, i)
            ==> m.tiles@[i] == TileType::Wall
}

/// How many of the first `i` tile indices are interior (draw one noise
/// roll each).
pub open spec fn interior_count(w: int, h: int, i: int) -> int
    decreases i,
{
    if i <= 0 {
        0
    } else {
        interior_count(w, h, i - 1) + if is_border(w, h, i - 1) {
            0int
        } else {
            1int
        }
    }
}

/// The interior count never goes negative.
pub proof fn lemma_interior_count_nonneg(w: int, h: int, i: int)
    requires
        0 <= i,
    ensures
        interior_count(w, h, i) >= 0,
    decreases i,
{
    if i > 0 {
        lemma_interior_count_nonneg(w, h, i - 1);
    }
}

/// The tile the noise pass writes at index `i`: border tiles are walls;
/// an interior tile draws the roll its position reaches in the stream.
pub open spec fn ca_noise_tile(s0: u64, w: int, h: int, i: int) -> TileType {
    if is_border(w, h, i) {
        TileType::Wall
    } else if roll_result(roll_state(s0, interior_count(w, h, i)), 1, 100) > (
    NOISE_FLOOR_PERCENT as int) {
        TileType::Floor
    } else {
        TileType::Wall
    }
}

/// The whole grid the noise pass produces from generator state `s0`.
pub open spec fn ca_noise(s0: u64, w: int, h: int) -> Seq<TileType> {
    Seq::new((w * h) as nat, |i: int| ca_noise_tile(s0, w, h, i))
}

/// One if the tile is a wall.
pub open spec fn wall_ind(t: TileType) -> int {
    if t == TileType::Wall {
        1
    } else {
        0
    }
}

/// How many of the eight neighbours of interior coordinate (x, y) are
/// walls.
pub open spec fn wall_count_xy(tiles: Seq<TileType>, w: int, x: int, y: int) -> int {
    wall_ind(tiles[(y - 1) * w + (x - 1)]) + wall_ind(tiles[(y - 1) * w + x]) + wall_ind(
        tiles[(y - 1) * w + (x + 1)],
    ) + wall_ind(tiles[y * w + (x - 1)]) + wall_ind(tiles[y * w + (x + 1)]) + wall_ind(
        tiles[(y + 1) * w + (x - 1)],
    ) + wall_ind(tiles[(y + 1) * w + x]) + wall_ind(tiles[(y + 1) * w + (x + 1)])
}

/// The smoothing rule at index `i`: borders stay wall; an interior tile
/// becomes wall when crowded (more than four wall neighbours) or isolated
/// (none), floor otherwise.
pub open spec fn ca_smooth_tile(tiles: Seq<TileType>, w: int, h: int, i: int) -> TileType {
    if is_border(w, h, i) {
        TileType::Wall
    } else {
        let c = wall_count_xy(tiles, w, i % w, i / w);
        if c > 4 || c == 0 {
            TileType::Wall
        } else {
            TileType::Floor
        }
    }
}

/// One whole smoothing generation.
pub open spec fn ca_smooth(tiles: Seq<TileType>, w: int, h: int) -> Seq<TileType> {
    Seq::new(tiles.len(), |i: int| ca_smooth_tile(tiles, w, h, i))
}

/// `g` smoothing generations applied to a grid.
pub open spec fn ca_generations(tiles: Seq<TileType>, w: int, h: int, g: int) -> Seq<TileType>
    decreases g,
{
    if g <= 0 {
        tiles
    } else {
        ca_smooth(ca_generations(tiles, w, h, g - 1), w, h)
    }
}

/// The number of the eight neighbours of interior tile (x, y) that are
/// walls.
fn wall_neighbors(map: &GridMap, x: i32, y: i32) -> (c: i32)
    requires
        map.wf(),
        1 <= x < map.width - 1,
        1 <= y < map.height - 1,
    ensures
        0 <= c <= 8,
        c as int == wall_count_xy(map.tiles@, map.width as int, x as int, y as int),
{
    let mut c: i32 = 0;
    if map.tiles[map.xy_idx(x - 1, y - 1)] == TileType::Wall {
        c = c + 1;
    }
    if map.tiles[map.xy_idx(x, y - 1)] == TileType::Wall {
        c = c + 1;
    }
    if map.tiles[map.xy_idx(x + 1, y - 1)] == TileType::Wall {
        c = c + 1;
    }
    if map.tiles[map.xy_idx(x - 1, y)] == TileType::Wall {
        c = c + 1;
    }
    if map.tiles[map.xy_idx(x + 1, y)] == TileType::Wall {
        c = c + 1;
    }
    if map.tiles[map.xy_idx(x - 1, y + 1)] == TileType::Wall {
        c = c + 1;
    }
    if map.tiles[map.xy_idx(x, y + 1)] == TileType::Wall {
        c = c + 1;
    }
    if map.tiles[map.xy_idx(x + 1, y + 1)] == TileType::Wall {
        c = c + 1;
    }
    c
}

/// Carves caves over the whole grid: seeds wall/floor noise on the
/// interior, keeps the border walled, then applies the smoothing rule for
/// a fixed number of generations.  The resulting grid is exactly
/// `ca_generations(ca_noise(s, w, h), w, h, SMOOTHING_GENERATIONS)` for
/// the incoming generator state `s`, and the generator advances by one
/// draw per interior tile.
pub fn cellular_automata(data: &mut BuilderMap, rng: &mut RandomSource)
    requires
        old(data).wf(),
    ensures
        final(data).wf(),
        final(data).width == old(data).width,
        final(data).height == old(data).height,
        final(data).map.depth == old(data).map.depth,
        final(data).map.name@ == old(data).map.name@,
        final(data).show_snapshots == old(data).show_snapshots,
        final(data).history@ == old(data).history@,
        final(data).spawn_list@ == old(data).spawn_list@,
        final(data).starting_position == old(data).starting_position,
        final(data).rooms == old(data).rooms,
        final(data).corridors == old(data).corridors,
        only_wall_floor(final(data).map.tiles@),
        border_walls(final(data).map),
        final(data).map.tiles@ == ca_generations(
            ca_noise(old(rng)@, old(data).width as int, old(data).height as int),
            old(data).width as int,
            old(data).height as int,
            SMOOTHING_GENERATIONS as int,
        ),
        final(rng)@ == roll_state(
            old(rng)@,
            interior_count(
                old(data).width as int,
                old(data).height as int,
                old(data).width as int * old(data).height as int,
            ),
        ),
{
    let w: i32 = data.width;
    let h: i32 = data.height;
    let n: usize = data.map.tiles.len();
    let ghost s0 = rng@;
    let mut i: usize = 0;
    while i < n
        invariant
            data.wf(),
            data.width == old(data).width,
            data.height == old(data).height,
            data.map.depth == old(data).map.depth,
            data.map.name@ == old(data).map.name@,
            data.show_snapshots == old(data).show_snapshots,
            data.history@ == old(data).history@,
            data.spawn_list@ == old(data).spawn_list@,
            data.starting_position == old(data).starting_position,
            data.rooms == old(data).rooms,
            data.corridors == old(data).corridors,
            w == data.width,
            h == data.height,
            i <= n,
            n == data.map.tiles@.len(),
            s0 == old(rng)@,
            rng@ == roll_state(s0, interior_count(w as int, h as int, i as int)),
            forall|j: int|
                0 <= j < i ==> (#[trigger] data.map.tiles@[j]) == ca_noise_tile(
                    s0,
                    w as int,
                    h as int,
                    j,
                ),
        decreases n - i,
    {
        let p: (i32, i32) = data.map.idx_xy(i);
        proof {
            crate::map::lemma_xy_idx_roundtrip(w as int, h as int, p.0 as int, p.1 as int);
        }
        if p.0 == 0 || p.1 == 0 || p.0 == w - 1 || p.1 == h - 1 {
            data.map.tiles.set(i, TileType::Wall);
        } else {
            let ghost pre = rng@;
            let roll: i32 = rng.roll_dice(1, 100);
            proof {
                lemma_interior_count_nonneg(w as int, h as int, i as int);
                lemma_roll_state_add(s0, interior_count(w as int, h as int, i as int), 1);
            }
            if roll > NOISE_FLOOR_PERCENT {
                data.map.tiles.set(i, TileType::Floor);
            } else {
                data.map.tiles.set(i, TileType::Wall);
            }
        }
        i = i + 1;
    }
    let ghost noise = data.map.tiles@;
    proof {
        assert(noise =~= ca_noise(s0, w as int, h as int));
    }
    let mut gen: i32 = 0;
    while gen < SMOOTHING_GENERATIONS
        invariant
            data.wf(),
            data.width == old(data).width,
            data.height == old(data).height,
            data.map.depth == old(data).map.depth,
            data.map.name@ == old(data).map.name@,
            data.show_snapshots == old(data).show_snapshots,
            data.history@ == old(data).history@,
            data.spawn_list@ == old(data).spawn_list@,
            data.starting_position == old(data).starting_position,
            data.rooms == old(data).rooms,
            data.corridors == old(data).corridors,
            w == data.width,
            h == data.height,
            n == data.map.tiles@.len(),
            0 <= gen <= SMOOTHING_GENERATIONS,
            s0 == old(rng)@,
            rng@ == roll_state(s0, interior_count(w as int, h as int, n as int)),
            noise == ca_noise(s0, w as int, h as int),
            data.map.tiles@ == ca_generations(noise, w as int, h as int, gen as int),
        decreases SMOOTHING_GENERATIONS - gen,
    {
        let mut newtiles: Vec<TileType> = Vec::new();
        let mut k: usize = 0;
        while k < n
            invariant
                data.wf(),
                w == data.width,
                h == data.height,
                n == data.map.tiles@.len(),
                k <= n,
                newtiles@.len() == k,
                forall|j: int|
                    0 <= j < k ==> (#[trigger] newtiles@[j]) == ca_smooth_tile(
                        data.map.tiles@,
                        w as int,
                        h as int,
                        j,
                    ),
            decreases n - k,
        {
            let p: (i32, i32) = data.map.idx_xy(k);
            proof {
                crate::map::lemma_xy_idx_roundtrip(w as int, h as int, p.0 as int, p.1 as int);
            }
            if p.0 == 0 || p.1 == 0 || p.0 == w - 1 || p.1 == h - 1 {
                newtiles.push(TileType::Wall);
            } else {
                let c: i32 = wall_neighbors(&data.map, p.0, p.1);
                if c > 4 || c == 0 {
                    newtiles.push(TileType::Wall);
                } else {
                    newtiles.push(TileType::Floor);
                }
            }
            k = k + 1;
        }
        proof {
            assert(newtiles@ =~= ca_smooth(data.map.tiles@, w as int, h as int));
        }
        data.map.tiles = newtiles;
        gen = gen + 1;
    }
    proof {
        assert forall|j: int| 0 <= j < data.map.tiles@.len() implies (#[trigger] data.map.tiles@[j])
            == TileType::Wall || data.map.tiles@[j] == TileType::Floor by {
            if SMOOTHING_GENERATIONS as int > 0 {
                assert(data.map.tiles@[j] == ca_smooth_tile(
                    ca_generations(noise, w as int, h as int, SMOOTHING_GENERATIONS as int - 1),
                    w as int,
                    h as int,
                    j,
                ));
            }
        }
        assert forall|j: int|
            0 <= j < data.map.tiles@.len() && is_border(w as int, h as int, j) implies
            data.map.tiles@[j] == TileType::Wall by {
            if SMOOTHING_GENERATIONS as int > 0 {
                assert(data.map.tiles@[j] == ca_smooth_tile(
                    ca_generations(noise, w as int, h as int, SMOOTHING_GENERATIONS as int - 1),
                    w as int,
                    h as int,
                    j,
                ));
            }
        }
    }
}

} // verus!
