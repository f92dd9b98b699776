//! Wave-function-collapse restyling: samples fixed-size chunks of the
//! current map, learns which chunks were observed next to which, then
//! re-derives a map of the same footprint by repeatedly collapsing an
//! uncollapsed cell to a chunk compatible with its already-collapsed
//! neighbours.  A contradiction (no chunk fits) restarts the collapse;
//! when every attempt within the retry budget fails, the map is left as it
//! was.

use vstd::prelude::*;

verus! {

use crate::map::{filled_vec, GridMap, TileType};
use crate::map_builders::{only_wall_floor, BuilderMap};
use crate::rng::RandomSource;

/// The edge length of a sampled chunk.
pub const CHUNK_SIZE: i32 = 8;

/// The most chunk cells a map may have for the restyler to run; larger
/// maps are left untouched.
pub const MAX_CHUNK_CELLS: i32 = 1024;

/// Every tile of every pattern is a wall or a floor.
spec fn patterns_wall_floor(patterns: Seq<Vec<TileType>>) -> bool {
    forall|p: int|
        0 <= p < patterns.len() ==> only_wall_floor((#[trigger] patterns[p])@)
}

/// Every pattern holds one tile per chunk cell.
spec fn patterns_sized(patterns: Seq<Vec<TileType>>, cs: int) -> bool {
    forall|p: int| 0 <= p < patterns.len() ==> (#[trigger] patterns[p])@.len() == cs * cs
}

/// The map index that cell `s` of source chunk `p` was sampled from.
pub open spec fn chunk_source_idx(w: int, cs: int, cw: int, p: int, s: int) -> int {
    ((p / cw) * cs + s / cs) * w + ((p % cw) * cs + s % cs)
}

/// A chunk cell and in-chunk offset always name an on-map source index.
proof fn lemma_chunk_source_in_range(w: int, h: int, cs: int, cw: int, ch: int, p: int, s: int)
    requires
        1 <= cs,
        1 <= w,
        1 <= h,
        cw == w / cs,
        ch == h / cs,
        1 <= cw,
        1 <= ch,
        0 <= p < cw * ch,
        0 <= s < cs * cs,
    ensures
        0 <= chunk_source_idx(w, cs, cw, p, s) < w * h,
{
    crate::map::lemma_idx_xy_in_range(cw, ch, p);
    crate::map::lemma_idx_xy_in_range(cs, cs, s);
    lemma_chunk_coord(w, cs, cw, p % cw, s % cs);
    lemma_chunk_coord(h, cs, ch, p / cw, s / cs);
    crate::map::lemma_xy_idx_in_range(w, h, (p % cw) * cs + s % cs, (p / cw) * cs + s / cs);
}

/// A column and row inside a chunk grid stay inside the map.
proof fn lemma_chunk_coord(w: int, cs: int, cw: int, cx: int, sx: int)
    by (nonlinear_arith)
    requires
        1 <= cs,
        1 <= w,
        cw == w / cs,
        0 <= cx < cw,
        0 <= sx < cs,
    ensures
        0 <= cx * cs + sx < w,
{
}

/// Extracts the tile pattern of chunk cell (cx, cy).
fn extract_chunk(map: &GridMap, cs: i32, cw: i32, cx: i32, cy: i32, ch: i32) -> (pattern: Vec<
    TileType,
>)
    requires
        map.wf(),
        1 <= cs <= 64,
        cw == map.width / cs,
        ch == map.height / cs,
        0 <= cx < cw,
        0 <= cy < ch,
    ensures
        pattern@.len() == cs * cs,
        only_wall_floor(map.tiles@) ==> only_wall_floor(pattern@),
        forall|s: int|
            0 <= s < cs * cs ==> (#[trigger] pattern@[s]) == map.tiles@[((cy as int) * (cs as int)
                + s / (cs as int)) * (map.width as int) + ((cx as int) * (cs as int) + s % (
            cs as int))],
{
    let mut pattern: Vec<TileType> = Vec::new();
    let mut sy: i32 = 0;
    while sy < cs
        invariant
            map.wf(),
            1 <= cs <= 64,
            cw == map.width / cs,
            ch == map.height / cs,
            0 <= cx < cw,
            0 <= cy < ch,
            0 <= sy <= cs,
            pattern@.len() == sy * cs,
            only_wall_floor(map.tiles@) ==> only_wall_floor(pattern@),
            forall|s: int|
                0 <= s < pattern@.len() ==> (#[trigger] pattern@[s]) == map.tiles@[((cy as int) * (
                cs as int) + s / (cs as int)) * (map.width as int) + ((cx as int) * (cs as int) + s
                    % (cs as int))],
        decreases cs - sy,
    {
        let mut sx: i32 = 0;
        while sx < cs
            invariant
                map.wf(),
                1 <= cs <= 64,
                cw == map.width / cs,
                ch == map.height / cs,
                0 <= cx < cw,
                0 <= cy < ch,
                0 <= sy < cs,
                0 <= sx <= cs,
                pattern@.len() == sy * cs + sx,
                only_wall_floor(map.tiles@) ==> only_wall_floor(pattern@),
                forall|s: int|
                    0 <= s < pattern@.len() ==> (#[trigger] pattern@[s]) == map.tiles@[((
                    cy as int) * (cs as int) + s / (cs as int)) * (map.width as int) + ((
                    cx as int) * (cs as int) + s % (cs as int))],
            decreases cs - sx,
        {
            proof {
                lemma_chunk_coord(map.width as int, cs as int, cw as int, cx as int, sx as int);
                lemma_chunk_coord(map.height as int, cs as int, ch as int, cy as int, sy as int);
                crate::map::lemma_xy_idx_roundtrip(cs as int, cs as int, sx as int, sy as int);
            }
            let idx: usize = map.xy_idx(cx * cs + sx, cy * cs + sy);
            pattern.push(map.tiles[idx]);
            sx = sx + 1;
        }
        proof {
            assert((sy as int + 1) * (cs as int) == sy as int * cs as int + cs as int)
                by (nonlinear_arith);
        }
        sy = sy + 1;
    }
    proof {
        assert(pattern@.len() == cs * cs);
    }
    pattern
}

/// The patterns a cell may still take, given its collapsed neighbours and
/// the observed east/south compatibilities.
fn chunk_options(
    grid: &Vec<Option<usize>>,
    compat_e: &Vec<bool>,
    compat_s: &Vec<bool>,
    np: usize,
    cw: usize,
    ch: usize,
    c: usize,
) -> (opts: Vec<usize>)
    requires
        1 <= np <= 1024,
        1 <= cw,
        1 <= ch,
        grid@.len() == cw * ch,
        c < grid@.len(),
        compat_e@.len() == np * np,
        compat_s@.len() == np * np,
        forall|k: int|
            0 <= k < grid@.len() ==> match #[trigger] grid@[k] {
                Option::Some(q) => (q as int) < np,
                Option::None => true,
            },
    ensures
        opts@.len() <= np,
        forall|k: int| 0 <= k < opts@.len() ==> ((#[trigger] opts@[k]) as int) < np,
{
    proof {
        crate::map::lemma_idx_xy_in_range(cw as int, ch as int, c as int);
        assert(np * np <= 1048576) by (nonlinear_arith)
            requires
                1 <= np <= 1024,
        ;
    }
    // materializes the fact that the grid's length fits in usize, which the
    // neighbour index arithmetic below depends on
    let _grid_len: usize = grid.len();
    let col: usize = c % cw;
    let row: usize = c / cw;
    let west: Option<usize> = if col > 0 {
        proof {
            assert(c >= 1) by (nonlinear_arith)
                requires
                    c as int == ((c as int) / (cw as int)) * (cw as int) + (c as int) % (cw as int),
                    (c as int) % (cw as int) >= 1,
                    (c as int) / (cw as int) >= 0,
                    cw >= 1,
            ;
        }
        grid[c - 1]
    } else {
        None
    };
    let east: Option<usize> = if col + 1 < cw {
        proof {
            lemma_east_in_grid(cw as int, ch as int, c as int);
        }
        grid[c + 1]
    } else {
        None
    };
    let north: Option<usize> = if row > 0 {
        proof {
            assert(c >= cw) by (nonlinear_arith)
                requires
                    c as int == ((c as int) / (cw as int)) * (cw as int) + (c as int) % (cw as int),
                    (c as int) % (cw as int) >= 0,
                    (c as int) / (cw as int) >= 1,
                    cw >= 1,
            ;
        }
        grid[c - cw]
    } else {
        None
    };
    let south: Option<usize> = if row + 1 < ch {
        proof {
            lemma_south_in_grid(cw as int, ch as int, c as int);
        }
        grid[c + cw]
    } else {
        None
    };
    let mut opts: Vec<usize> = Vec::new();
    let mut p: usize = 0;
    while p < np
        invariant
            1 <= np <= 1024,
            np * np <= 1048576,
            compat_e@.len() == np * np,
            compat_s@.len() == np * np,
            (match west {
                Option::Some(q) => (q as int) < np,
                Option::None => true,
            }),
            (match east {
                Option::Some(q) => (q as int) < np,
                Option::None => true,
            }),
            (match north {
                Option::Some(q) => (q as int) < np,
                Option::None => true,
            }),
            (match south {
                Option::Some(q) => (q as int) < np,
                Option::None => true,
            }),
            p <= np,
            opts@.len() <= p,
            forall|k: int| 0 <= k < opts@.len() ==> ((#[trigger] opts@[k]) as int) < np,
        decreases np - p,
    {
        let mut ok: bool = true;
        match west {
            Some(q) => {
                proof {
                    crate::map::lemma_xy_idx_in_range(np as int, np as int, p as int, q as int);
                }
                if !compat_e[q * np + p] {
                    ok = false;
                }
            },
            None => {},
        }
        match east {
            Some(q) => {
                proof {
                    crate::map::lemma_xy_idx_in_range(np as int, np as int, q as int, p as int);
                }
                if !compat_e[p * np + q] {
                    ok = false;
                }
            },
            None => {},
        }
        match north {
            Some(q) => {
                proof {
                    crate::map::lemma_xy_idx_in_range(np as int, np as int, p as int, q as int);
                }
                if !compat_s[q * np + p] {
                    ok = false;
                }
            },
            None => {},
        }
        match south {
            Some(q) => {
                proof {
                    crate::map::lemma_xy_idx_in_range(np as int, np as int, q as int, p as int);
                }
                if !compat_s[p * np + q] {
                    ok = false;
                }
            },
            None => {},
        }
        if ok {
            opts.push(p);
        }
        p = p + 1;
    }
    opts
}

/// A cell not in the last column has its east neighbour in the grid.
proof fn lemma_east_in_grid(cw: int, ch: int, c: int)
    by (nonlinear_arith)
    requires
        1 <= cw,
        1 <= ch,
        0 <= c < cw * ch,
        c % cw + 1 < cw,
    ensures
        c + 1 < cw * ch,
{
}

/// A cell not in the last row has its south neighbour in the grid.
proof fn lemma_south_in_grid(cw: int, ch: int, c: int)
    by (nonlinear_arith)
    requires
        1 <= cw,
        1 <= ch,
        0 <= c < cw * ch,
        c / cw + 1 < ch,
    ensures
        c + cw < cw * ch,
{
}

/// Whether cell `c` has at least one collapsed 4-neighbour.
fn has_collapsed_neighbor(grid: &Vec<Option<usize>>, cw: usize, ch: usize, c: usize) -> (r: bool)
    requires
        1 <= cw,
        1 <= ch,
        grid@.len() == cw * ch,
        c < grid@.len(),
{
    proof {
        crate::map::lemma_idx_xy_in_range(cw as int, ch as int, c as int);
        assert(c as int >= (c as int) % (cw as int) && c as int >= ((c as int) / (cw as int)) * (
        cw as int)) by (nonlinear_arith)
            requires
                c as int == ((c as int) / (cw as int)) * (cw as int) + (c as int) % (cw as int),
                (c as int) % (cw as int) >= 0,
                (c as int) / (cw as int) >= 0,
                cw >= 1,
        ;
        assert((c as int) / (cw as int) >= 1 ==> ((c as int) / (cw as int)) * (cw as int) >= cw as int)
            by (nonlinear_arith)
            requires
                cw >= 1,
                (c as int) / (cw as int) >= 0,
        ;
    }
    // materializes the fact that the grid's length fits in usize, which the
    // neighbour index arithmetic below depends on
    let _grid_len: usize = grid.len();
    let col: usize = c % cw;
    let row: usize = c / cw;
    if col > 0 && grid[c - 1].is_some() {
        return true;
    }
    if col + 1 < cw {
        proof {
            lemma_east_in_grid(cw as int, ch as int, c as int);
        }
        if grid[c + 1].is_some() {
            return true;
        }
    }
    if row > 0 && grid[c - cw].is_some() {
        return true;
    }
    if row + 1 < ch {
        proof {
            lemma_south_in_grid(cw as int, ch as int, c as int);
        }
        if grid[c + cw].is_some() {
            return true;
        }
    }
    false
}

/// One collapse attempt: returns the per-cell pattern choices, or nothing
/// on a contradiction.
fn try_collapse(
    rng: &mut RandomSource,
    compat_e: &Vec<bool>,
    compat_s: &Vec<bool>,
    np: usize,
    cw: usize,
    ch: usize,
) -> (r: Option<Vec<Option<usize>>>)
    requires
        1 <= np <= 1024,
        1 <= cw <= 1024,
        1 <= ch <= 1024,
        cw * ch <= 1024,
        compat_e@.len() == np * np,
        compat_s@.len() == np * np,
    ensures
        match r {
            Option::Some(grid) => grid@.len() == cw * ch && forall|k: int|
                0 <= k < grid@.len() ==> match #[trigger] grid@[k] {
                    Option::Some(q) => (q as int) < np,
                    Option::None => true,
                },
            Option::None => true,
        },
{
    let nc: usize = cw * ch;
    let mut grid: Vec<Option<usize>> = filled_vec(nc, None);
    let mut remaining: Vec<usize> = Vec::new();
    let mut i: usize = 0;
    while i < nc
        invariant
            i <= nc,
            remaining@.len() == i,
            forall|k: int| 0 <= k < remaining@.len() ==> ((#[trigger] remaining@[k]) as int) < nc,
        decreases nc - i,
    {
        remaining.push(i);
        i = i + 1;
    }
    while remaining.len() > 0
        invariant
            1 <= np <= 1024,
            1 <= cw,
            1 <= ch,
            nc == cw * ch,
            nc <= 1024,
            compat_e@.len() == np * np,
            compat_s@.len() == np * np,
            grid@.len() == nc,
            remaining@.len() <= nc,
            forall|k: int| 0 <= k < remaining@.len() ==> ((#[trigger] remaining@[k]) as int) < nc,
            forall|k: int|
                0 <= k < grid@.len() ==> match #[trigger] grid@[k] {
                    Option::Some(q) => (q as int) < np,
                    Option::None => true,
                },
        decreases remaining@.len(),
    {
        let rlen: usize = remaining.len();
        let mut chosen_slot: usize = 0;
        let mut best_count: usize = np + 1;
        let mut found: bool = false;
        let mut k: usize = 0;
        while k < rlen
            invariant
                1 <= np <= 1024,
                1 <= cw,
                1 <= ch,
                nc == cw * ch,
                compat_e@.len() == np * np,
                compat_s@.len() == np * np,
                grid@.len() == nc,
                rlen == remaining@.len(),
                forall|t: int| 0 <= t < remaining@.len() ==> ((#[trigger] remaining@[t]) as int) < nc,
                forall|t: int|
                    0 <= t < grid@.len() ==> match #[trigger] grid@[t] {
                        Option::Some(q) => (q as int) < np,
                        Option::None => true,
                    },
                k <= rlen,
                found ==> chosen_slot < rlen,
            decreases rlen - k,
        {
            let cell: usize = remaining[k];
            if grid[cell].is_none() && has_collapsed_neighbor(&grid, cw, ch, cell) {
                let opts = chunk_options(&grid, compat_e, compat_s, np, cw, ch, cell);
                if !found || opts.len() < best_count {
                    chosen_slot = k;
                    best_count = opts.len();
                    found = true;
                }
            }
            k = k + 1;
        }
        if !found {
            let pick: i32 = rng.range(0, rlen as i32);
            chosen_slot = pick as usize;
        }
        let cell: usize = remaining[chosen_slot];
        remaining.swap_remove(chosen_slot);
        if grid[cell].is_none() {
            let opts = chunk_options(&grid, compat_e, compat_s, np, cw, ch, cell);
            if opts.len() == 0 {
                return None;
            }
            let pick: i32 = rng.range(0, opts.len() as i32);
            let pattern: usize = opts[pick as usize];
            grid.set(cell, Some(pattern));
        }
    }
    Some(grid)
}

/// Every tile of the grid is a wall or was sampled from one of the old
/// grid's chunks: what a successful restyle guarantees.
pub open spec fn restyled_from_chunks(
    new_tiles: Seq<TileType>,
    old_tiles: Seq<TileType>,
    w: int,
    h: int,
    cs: int,
) -> bool {
    let cw = w / cs;
    let ch = h / cs;
    forall|i: int|
        0 <= i < new_tiles.len() ==> (#[trigger] new_tiles[i]) == TileType::Wall || exists|
            p: int,
            s: int,
        |
            0 <= p < cw * ch && 0 <= s < cs * cs && 0 <= #[trigger] chunk_source_idx(
                w,
                cs,
                cw,
                p,
                s,
            ) < old_tiles.len() && new_tiles[i] == old_tiles[chunk_source_idx(w, cs, cw, p, s)]
}

/// Restyles the map from chunks of itself.  The footprint is unchanged; on
/// a map of walls and floors the result again holds only walls and floors.
/// The result says which way it went: a restyled map is assembled entirely
/// from walls and tiles sampled from the input map's chunks; otherwise —
/// when every collapse attempt within the retry budget hit a
/// contradiction, or the map is too small or too large for chunking — the
/// map is left exactly as it was.
pub fn waveform_collapse(data: &mut BuilderMap, rng: &mut RandomSource, retries: i32) -> (restyled:
    bool)
    requires
        old(data).wf(),
        1 <= retries <= 100,
    ensures
        final(data).wf(),
        final(data).width == old(data).width,
        final(data).height == old(data).height,
        final(data).map.depth == old(data).map.depth,
        final(data).map.name@ == old(data).map.name@,
        final(data).show_snapshots == old(data).show_snapshots,
        final(data).history@ == old(data).history@,
        final(data).spawn_list@ == old(data).spawn_list@,
        final(data).starting_position == old(data).starting_position,
        final(data).rooms == old(data).rooms,
        final(data).corridors == old(data).corridors,
        final(data).map.tiles@.len() == old(data).map.tiles@.len(),
        only_wall_floor(old(data).map.tiles@) ==> only_wall_floor(final(data).map.tiles@),
        !restyled ==> final(data).map == old(data).map,
        restyled ==> restyled_from_chunks(
            final(data).map.tiles@,
            old(data).map.tiles@,
            old(data).width as int,
            old(data).height as int,
            CHUNK_SIZE as int,
        ),
{
    let w: i32 = data.width;
    let h: i32 = data.height;
    let cs: i32 = CHUNK_SIZE;
    let cw: i32 = w / cs;
    let ch: i32 = h / cs;
    if cw < 1 || ch < 1 {
        return false;
    }
    proof {
        assert(1 <= cw as int * ch as int) by (nonlinear_arith)
            requires
                1 <= cw,
                1 <= ch,
        ;
    }
    if cw > MAX_CHUNK_CELLS || ch > MAX_CHUNK_CELLS {
        return false;
    }
    proof {
        assert(cw as int * ch as int <= 1048576) by (nonlinear_arith)
            requires
                1 <= cw <= 1024,
                1 <= ch <= 1024,
        ;
    }
    let nc64: i64 = (cw as i64) * (ch as i64);
    if nc64 > (MAX_CHUNK_CELLS as i64) {
        return false;
    }
    let np: usize = (cw * ch) as usize;
    let cwu: usize = cw as usize;
    let chu: usize = ch as usize;
    let mut patterns: Vec<Vec<TileType>> = Vec::new();
    let mut c: usize = 0;
    while c < np
        invariant
            data.wf(),
            w == data.width,
            h == data.height,
            cs == CHUNK_SIZE,
            cw == data.width / cs,
            ch == data.height / cs,
            1 <= cw,
            1 <= ch,
            np == cw as int * ch as int,
            np <= 1024,
            cwu == cw as usize,
            chu == ch as usize,
            c <= np,
            patterns@.len() == c,
            patterns_sized(patterns@, cs as int),
            only_wall_floor(data.map.tiles@) ==> patterns_wall_floor(patterns@),
            forall|q: int, s: int|
                0 <= q < patterns@.len() && 0 <= s < (cs as int) * (cs as int)
                    ==> #[trigger] patterns@[q]@[s] == data.map.tiles@[chunk_source_idx(
                    w as int,
                    cs as int,
                    cw as int,
                    q,
                    s,
                )],
        decreases np - c,
    {
        proof {
            crate::map::lemma_idx_xy_in_range(cw as int, ch as int, c as int);
        }
        let cx: i32 = (c as i32) % cw;
        let cy: i32 = (c as i32) / cw;
        let pattern = extract_chunk(&data.map, cs, cw, cx, cy, ch);
        patterns.push(pattern);
        c = c + 1;
    }
    proof {
        assert(np * np <= 1048576) by (nonlinear_arith)
            requires
                1 <= np <= 1024,
        ;
    }
    let mut compat_e: Vec<bool> = filled_vec(np * np, false);
    let mut compat_s: Vec<bool> = filled_vec(np * np, false);
    let mut a: usize = 0;
    while a < np
        invariant
            1 <= cw,
            1 <= ch,
            np == cw as int * ch as int,
            np <= 1024,
            cwu == cw as usize,
            chu == ch as usize,
            a <= np,
            np * np <= 1048576,
            compat_e@.len() == np * np,
            compat_s@.len() == np * np,
        decreases np - a,
    {
        proof {
            crate::map::lemma_idx_xy_in_range(cw as int, ch as int, a as int);
        }
        let col: usize = a % cwu;
        let row: usize = a / cwu;
        if col + 1 < cwu {
            proof {
                lemma_east_in_grid(cw as int, ch as int, a as int);
                crate::map::lemma_xy_idx_in_range(np as int, np as int, a as int + 1, a as int);
            }
            compat_e.set(a * np + (a + 1), true);
        }
        if row + 1 < chu {
            proof {
                lemma_south_in_grid(cw as int, ch as int, a as int);
                crate::map::lemma_xy_idx_in_range(
                    np as int,
                    np as int,
                    a as int + cwu as int,
                    a as int,
                );
            }
            compat_s.set(a * np + (a + cwu), true);
        }
        a = a + 1;
    }
    let mut attempt: i32 = 0;
    while attempt < retries
        invariant
            data.wf(),
            data.width == old(data).width,
            data.height == old(data).height,
            data.map.depth == old(data).map.depth,
            data.map.name@ == old(data).map.name@,
            data.show_snapshots == old(data).show_snapshots,
            data.history@ == old(data).history@,
            data.spawn_list@ == old(data).spawn_list@,
            data.starting_position == old(data).starting_position,
            data.rooms == old(data).rooms,
            data.corridors == old(data).corridors,
            data.map == old(data).map,
            w == data.width,
            h == data.height,
            cs == CHUNK_SIZE,
            cw == data.width / cs,
            ch == data.height / cs,
            1 <= cw <= 1024,
            1 <= ch <= 1024,
            np == cw as int * ch as int,
            1 <= np <= 1024,
            cwu == cw as usize,
            chu == ch as usize,
            patterns@.len() == np,
            patterns_sized(patterns@, cs as int),
            only_wall_floor(data.map.tiles@) ==> patterns_wall_floor(patterns@),
            forall|q: int, s: int|
                0 <= q < patterns@.len() && 0 <= s < (cs as int) * (cs as int)
                    ==> #[trigger] patterns@[q]@[s] == data.map.tiles@[chunk_source_idx(
                    w as int,
                    cs as int,
                    cw as int,
                    q,
                    s,
                )],
            compat_e@.len() == np * np,
            compat_s@.len() == np * np,
            0 <= attempt <= retries,
        decreases retries - attempt,
    {
        let solved = try_collapse(rng, &compat_e, &compat_s, np, cwu, chu, );
        match solved {
            Some(grid) => {
                render_collapsed(data, &patterns, &grid, cs, cw, ch);
                proof {
                    let wi = old(data).width as int;
                    let hi = old(data).height as int;
                    let csi = CHUNK_SIZE as int;
                    let cwi = wi / csi;
                    let chi = hi / csi;
                    let ft = data.map.tiles@;
                    let ot = old(data).map.tiles@;
                    assert forall|i: int|
                        0 <= i < ft.len() implies (#[trigger] ft[i]) == TileType::Wall || exists|
                        p: int,
                        s: int,
                    |
                        0 <= p < cwi * chi && 0 <= s < csi * csi && 0 <= #[trigger] chunk_source_idx(
                            wi,
                            csi,
                            cwi,
                            p,
                            s,
                        ) < ot.len() && ft[i] == ot[chunk_source_idx(wi, csi, cwi, p, s)] by {
                        if ft[i] != TileType::Wall {
                            let (pp, ss) = choose|pp: int, ss: int|
                                0 <= pp < patterns@.len() && 0 <= ss < patterns@[pp]@.len() && ft[i]
                                    == #[trigger] patterns@[pp]@[ss];
                            lemma_chunk_source_in_range(wi, hi, csi, cwi, chi, pp, ss);
                            assert(patterns@[pp]@[ss] == ot[chunk_source_idx(wi, csi, cwi, pp, ss)]);
                            assert(0 <= chunk_source_idx(wi, csi, cwi, pp, ss) < ot.len() && ft[i]
                                == ot[chunk_source_idx(wi, csi, cwi, pp, ss)]);
                        }
                    }
                }
                return true;
            },
            None => {},
        }
        attempt = attempt + 1;
    }
    false
}

/// Writes the collapsed chunk grid back onto the map: every tile inside
/// the chunked area takes its pattern's tile, the leftover strip along the
/// far edges becomes wall.
fn render_collapsed(
    data: &mut BuilderMap,
    patterns: &Vec<Vec<TileType>>,
    grid: &Vec<Option<usize>>,
    cs: i32,
    cw: i32,
    ch: i32,
)
    requires
        old(data).wf(),
        1 <= cs <= 64,
        cw == old(data).width / cs,
        ch == old(data).height / cs,
        1 <= cw <= 1024,
        1 <= ch <= 1024,
        patterns@.len() == cw as int * ch as int,
        patterns_sized(patterns@, cs as int),
        grid@.len() == cw as int * ch as int,
        forall|k: int|
            0 <= k < grid@.len() ==> match #[trigger] grid@[k] {
                Option::Some(q) => (q as int) < patterns@.len(),
                Option::None => true,
            },
    ensures
        final(data).wf(),
        final(data).width == old(data).width,
        final(data).height == old(data).height,
        final(data).map.depth == old(data).map.depth,
        final(data).map.name@ == old(data).map.name@,
        final(data).show_snapshots == old(data).show_snapshots,
        final(data).history@ == old(data).history@,
        final(data).spawn_list@ == old(data).spawn_list@,
        final(data).starting_position == old(data).starting_position,
        final(data).rooms == old(data).rooms,
        final(data).corridors == old(data).corridors,
        final(data).map.tiles@.len() == old(data).map.tiles@.len(),
        patterns_wall_floor(patterns@) ==> only_wall_floor(final(data).map.tiles@),
        forall|i: int|
            0 <= i < final(data).map.tiles@.len() ==> (#[trigger] final(data).map.tiles@[i])
                == TileType::Wall || exists|p: int, s: int|
                0 <= p < patterns@.len() && 0 <= s < patterns@[p]@.len() && final(data).map.tiles@[i] == #[trigger] patterns@[p]@[s],
{
    let w: i32 = data.width;
    let h: i32 = data.height;
    let n: usize = data.map.tiles.len();
    let mut i: usize = 0;
    while i < n
        invariant
            data.wf(),
            data.width == old(data).width,
            data.height == old(data).height,
            data.map.depth == old(data).map.depth,
            data.map.name@ == old(data).map.name@,
            data.show_snapshots == old(data).show_snapshots,
            data.history@ == old(data).history@,
            data.spawn_list@ == old(data).spawn_list@,
            data.starting_position == old(data).starting_position,
            data.rooms == old(data).rooms,
            data.corridors == old(data).corridors,
            w == data.width,
            h == data.height,
            1 <= cs <= 64,
            cw == data.width / cs,
            ch == data.height / cs,
            1 <= cw <= 1024,
            1 <= ch <= 1024,
            patterns@.len() == cw as int * ch as int,
            patterns_sized(patterns@, cs as int),
            grid@.len() == cw as int * ch as int,
            forall|k: int|
                0 <= k < grid@.len() ==> match #[trigger] grid@[k] {
                    Option::Some(q) => (q as int) < patterns@.len(),
                    Option::None => true,
                },
            n == data.map.tiles@.len(),
            i <= n,
            forall|j: int|
                0 <= j < i ==> (#[trigger] data.map.tiles@[j]) == TileType::Wall || exists|
                    p: int,
                    s: int,
                |
                    0 <= p < patterns@.len() && 0 <= s < patterns@[p]@.len()
                        && data.map.tiles@[j] == #[trigger] patterns@[p]@[s],
            forall|j: int| i <= j < n ==> data.map.tiles@[j] == old(data).map.tiles@[j],
        decreases n - i,
    {
        let pxy: (i32, i32) = data.map.idx_xy(i);
        let x: i32 = pxy.0;
        let y: i32 = pxy.1;
        let mut tile: TileType = TileType::Wall;
        proof {
            assert(cw as int * cs as int <= 65536 && ch as int * cs as int <= 65536)
                by (nonlinear_arith)
                requires
                    1 <= cw <= 1024,
                    1 <= ch <= 1024,
                    1 <= cs <= 64,
            ;
        }
        if x < cw * cs && y < ch * cs {
            let cx: i32 = x / cs;
            let cy: i32 = y / cs;
            let sx: i32 = x % cs;
            let sy: i32 = y % cs;
            proof {
                lemma_render_cell(w as int, cs as int, cw as int, x as int);
                lemma_render_cell(h as int, cs as int, ch as int, y as int);
                crate::map::lemma_xy_idx_in_range(cw as int, ch as int, cx as int, cy as int);
                crate::map::lemma_xy_idx_in_range(cs as int, cs as int, sx as int, sy as int);
                assert(cw as int * ch as int <= 1048576 && cs as int * cs as int <= 4096)
                    by (nonlinear_arith)
                    requires
                        1 <= cw <= 1024,
                        1 <= ch <= 1024,
                        1 <= cs <= 64,
                ;
            }
            let cell: usize = (cy * cw + cx) as usize;
            let si: usize = (sy * cs + sx) as usize;
            match grid[cell] {
                Some(p) => {
                    tile = patterns[p][si];
                    proof {
                        assert(exists|pp: int, s: int|
                            0 <= pp < patterns@.len() && 0 <= s < patterns@[pp]@.len()
                                && patterns@[p as int]@[si as int] == #[trigger] patterns@[pp]@[s]);
                    }
                },
                None => {},
            }
        }
        data.map.tiles.set(i, tile);
        i = i + 1;
    }
}

/// A coordinate inside the chunked area decomposes into an in-range chunk
/// column and in-chunk offset.
proof fn lemma_render_cell(w: int, cs: int, cw: int, x: int)
    by (nonlinear_arith)
    requires
        1 <= cs,
        1 <= w,
        cw == w / cs,
        0 <= x,
        x < cw * cs,
    ensures
        0 <= x / cs < cw,
        0 <= x % cs < cs,
{
}

} // verus!
