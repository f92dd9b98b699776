//! Room-based carving: non-overlapping rectangular rooms placed by
//! rejection sampling, each connected to the nearest earlier room's centre
//! by an L-shaped corridor.  If a placement keeps being rejected the step
//! accepts whatever was placed — it never hangs.

use vstd::prelude::*;

verus! {

use crate::map::{GridMap, TileType};
use crate::map_builders::BuilderMap;
use crate::rect::Rect;
use crate::rng::{next_state, range_result, RandomSource};

/// The smallest and largest room edge the sampler draws.
pub const MIN_ROOM_SIZE: i32 = 6;

pub const MAX_ROOM_SIZE: i32 = 10;

/// The room's carved interior stays strictly inside the map's border.
pub open spec fn room_in_bounds(r: Rect, w: int, h: int) -> bool {
    &&& r.wf()
    &&& 0 <= r.x1
    &&& r.x2 < w - 1
    &&& 0 <= r.y1
    &&& r.y2 < h - 1
}

/// No two recorded rooms touch or overlap.
pub open spec fn rooms_disjoint(rs: Seq<Rect>) -> bool {
    forall|a: int, b: int|
        0 <= a < b < rs.len() ==> !(#[trigger] rs[a]).intersect_spec(#[trigger] rs[b])
}

/// The grid after carving a room's interior to floor.
pub open spec fn carve_room(tiles: Seq<TileType>, w: int, r: Rect) -> Seq<TileType> {
    Seq::new(
        tiles.len(),
        |i: int|
            if r.contains(i % w, i / w) {
                TileType::Floor
            } else {
                tiles[i]
            },
    )
}

/// The grid after carving a horizontal floor run at row `y`.
pub open spec fn h_tunnel(tiles: Seq<TileType>, w: int, x1: int, x2: int, y: int) -> Seq<TileType> {
    let lo = if x1 < x2 { x1 } else { x2 };
    let hi = if x1 < x2 { x2 } else { x1 };
    Seq::new(
        tiles.len(),
        |i: int|
            if i / w == y && lo <= i % w <= hi {
                TileType::Floor
            } else {
                tiles[i]
            },
    )
}

/// The tile indices a horizontal run records, leftmost first.
pub open spec fn h_corridor(w: int, x1: int, x2: int, y: int) -> Seq<usize> {
    let lo = if x1 < x2 { x1 } else { x2 };
    let hi = if x1 < x2 { x2 } else { x1 };
    Seq::new((hi + 1 - lo) as nat, |k: int| (y * w + lo + k) as usize)
}

/// The grid after carving a vertical floor run at column `x`.
pub open spec fn v_tunnel(tiles: Seq<TileType>, w: int, y1: int, y2: int, x: int) -> Seq<TileType> {
    let lo = if y1 < y2 { y1 } else { y2 };
    let hi = if y1 < y2 { y2 } else { y1 };
    Seq::new(
        tiles.len(),
        |i: int|
            if i % w == x && lo <= i / w <= hi {
                TileType::Floor
            } else {
                tiles[i]
            },
    )
}

/// The tile indices a vertical run records, topmost first.
pub open spec fn v_corridor(w: int, y1: int, y2: int, x: int) -> Seq<usize> {
    let lo = if y1 < y2 { y1 } else { y2 };
    let hi = if y1 < y2 { y2 } else { y1 };
    Seq::new((hi + 1 - lo) as nat, |k: int| ((lo + k) * w + x) as usize)
}

/// The first room, among the first `k`, whose centre is nearest the
/// candidate's centre.
pub open spec fn nearest_center_upto(rooms: Seq<Rect>, r: Rect, k: int) -> int
    decreases k,
{
    if k <= 1 {
        0
    } else {
        let b = nearest_center_upto(rooms, r, k - 1);
        if center_manhattan(rooms[k - 1], r) < center_manhattan(rooms[b], r) {
            k - 1
        } else {
            b
        }
    }
}

/// One placement attempt: sample a room size, and — when the map can hold
/// it — a position; an overlapping candidate is rejected, an accepted one
/// is carved and joined by an L-shaped corridor to the nearest earlier
/// room's centre, the bend direction decided by one more draw.
pub open spec fn rooms_attempt(
    tiles: Seq<TileType>,
    rooms: Seq<Rect>,
    corridors: Seq<Seq<usize>>,
    s: u64,
    w: int,
    h: int,
) -> (Seq<TileType>, Seq<Rect>, Seq<Seq<usize>>, u64) {
    let rw = range_result(s, MIN_ROOM_SIZE as int, MAX_ROOM_SIZE as int + 1);
    let s1 = next_state(s);
    let rh = range_result(s1, MIN_ROOM_SIZE as int, MAX_ROOM_SIZE as int + 1);
    let s2 = next_state(s1);
    if w > rw + 3 && h > rh + 3 {
        let x = range_result(s2, 1, w - rw - 2);
        let s3 = next_state(s2);
        let y = range_result(s3, 1, h - rh - 2);
        let s4 = next_state(s3);
        let cand = Rect { x1: x as i32, y1: y as i32, x2: (x + rw) as i32, y2: (y + rh) as i32 };
        if forall|t: int| 0 <= t < rooms.len() ==> !cand.intersect_spec(#[trigger] rooms[t]) {
            let tiles1 = carve_room(tiles, w, cand);
            if rooms.len() > 0 {
                let near = nearest_center_upto(rooms, cand, rooms.len() as int);
                let nc = center_of(rooms[near]);
                let cc = center_of(cand);
                let coin = range_result(s4, 0, 2);
                let s5 = next_state(s4);
                if coin == 0 {
                    let tiles2 = h_tunnel(tiles1, w, nc.0, cc.0, nc.1);
                    let tiles3 = v_tunnel(tiles2, w, nc.1, cc.1, cc.0);
                    let corr = h_corridor(w, nc.0, cc.0, nc.1) + v_corridor(w, nc.1, cc.1, cc.0);
                    (tiles3, rooms.push(cand), corridors.push(corr), s5)
                } else {
                    let tiles2 = v_tunnel(tiles1, w, nc.1, cc.1, nc.0);
                    let tiles3 = h_tunnel(tiles2, w, nc.0, cc.0, cc.1);
                    let corr = v_corridor(w, nc.1, cc.1, nc.0) + h_corridor(w, nc.0, cc.0, cc.1);
                    (tiles3, rooms.push(cand), corridors.push(corr), s5)
                }
            } else {
                (tiles1, rooms.push(cand), corridors, s4)
            }
        } else {
            (tiles, rooms, corridors, s4)
        }
    } else {
        (tiles, rooms, corridors, s2)
    }
}

/// The state after `attempts` placement rounds from a starting grid and
/// generator state.
pub open spec fn rooms_result(tiles0: Seq<TileType>, w: int, h: int, s0: u64, attempts: int) -> (
    Seq<TileType>,
    Seq<Rect>,
    Seq<Seq<usize>>,
    u64,
)
    decreases attempts,
{
    if attempts <= 0 {
        (tiles0, Seq::empty(), Seq::empty(), s0)
    } else {
        let prev = rooms_result(tiles0, w, h, s0, attempts - 1);
        rooms_attempt(prev.0, prev.1, prev.2, prev.3, w, h)
    }
}

/// Carves exactly the room's interior to floor; no other tile changes.
fn apply_room_to_map(map: &mut GridMap, room: &Rect)
    requires
        old(map).wf(),
        room_in_bounds(*room, old(map).width as int, old(map).height as int),
    ensures
        map_carved(*old(map), *final(map)),
        final(map).tiles@ == carve_room(old(map).tiles@, old(map).width as int, *room),
        forall|i: int|
            0 <= i < final(map).tiles@.len() ==> (#[trigger] final(map).tiles@[i]) == (if
            room.contains(i % (old(map).width as int), i / (old(map).width as int)) {
                TileType::Floor
            } else {
                old(map).tiles@[i]
            }),
{
    let ghost w = old(map).width as int;
    let mut y: i32 = room.y1 + 1;
    while y <= room.y2
        invariant
            map.wf(),
            w == map.width as int,
            map.tiles@.len() == old(map).tiles@.len(),
            room_in_bounds(*room, map.width as int, map.height as int),
            room.y1 + 1 <= y <= room.y2 + 1,
            map_carved(*old(map), *map),
            forall|i: int|
                0 <= i < map.tiles@.len() ==> (#[trigger] map.tiles@[i]) == (if room.contains(
                    i % w,
                    i / w,
                ) && i / w < y as int {
                    TileType::Floor
                } else {
                    old(map).tiles@[i]
                }),
        decreases room.y2 + 1 - y,
    {
        let mut x: i32 = room.x1 + 1;
        while x <= room.x2
            invariant
                map.wf(),
                w == map.width as int,
                map.tiles@.len() == old(map).tiles@.len(),
                room_in_bounds(*room, map.width as int, map.height as int),
                room.y1 + 1 <= y <= room.y2,
                room.x1 + 1 <= x <= room.x2 + 1,
                map_carved(*old(map), *map),
                forall|i: int|
                    0 <= i < map.tiles@.len() ==> (#[trigger] map.tiles@[i]) == (if room.contains(
                        i % w,
                        i / w,
                    ) && (i / w < y as int || (i / w == y as int && i % w < x as int)) {
                        TileType::Floor
                    } else {
                        old(map).tiles@[i]
                    }),
            decreases room.x2 + 1 - x,
        {
            let idx: usize = map.xy_idx(x, y);
            proof {
                crate::map::lemma_xy_idx_roundtrip(
                    map.width as int,
                    map.height as int,
                    x as int,
                    y as int,
                );
            }
            let ghost t0 = map.tiles@;
            map.tiles.set(idx, TileType::Floor);
            proof {
                assert forall|i: int| 0 <= i < map.tiles@.len() implies (#[trigger] map.tiles@[i])
                    == (if room.contains(i % w, i / w) && (i / w < y as int || (i / w == y as int
                    && i % w < x as int + 1)) {
                    TileType::Floor
                } else {
                    old(map).tiles@[i]
                }) by {
                    if i != idx as int {
                        crate::map::lemma_idx_xy_in_range(
                            map.width as int,
                            map.height as int,
                            i,
                        );
                        assert(map.tiles@[i] == t0[i]);
                    }
                }
            }
            x = x + 1;
        }
        proof {
            assert forall|i: int| 0 <= i < map.tiles@.len() implies (#[trigger] map.tiles@[i]) == (
            if room.contains(i % w, i / w) && i / w < y as int + 1 {
                TileType::Floor
            } else {
                old(map).tiles@[i]
            }) by {
                assert(map.tiles@[i] == (if room.contains(i % w, i / w) && (i / w < y as int || (i
                    / w == y as int && i % w < room.x2 + 1)) {
                    TileType::Floor
                } else {
                    old(map).tiles@[i]
                }));
            }
        }
        y = y + 1;
    }
    proof {
        assert forall|i: int| 0 <= i < map.tiles@.len() implies (#[trigger] map.tiles@[i]) == (if
        room.contains(i % w, i / w) {
            TileType::Floor
        } else {
            old(map).tiles@[i]
        }) by {
            assert(map.tiles@[i] == (if room.contains(i % w, i / w) && i / w < room.y2 + 1 {
                TileType::Floor
            } else {
                old(map).tiles@[i]
            }));
        }
        assert(map.tiles@ =~= carve_room(old(map).tiles@, w, *room));
    }
}

/// Every interior tile of the room is floor on the grid.
pub open spec fn room_floors(tiles: Seq<TileType>, w: int, r: Rect) -> bool {
    forall|i: int|
        0 <= i < tiles.len() && r.contains(i % w, i / w) ==> (#[trigger] tiles[i])
            == TileType::Floor
}

/// Every recorded corridor tile is a valid floor tile of the grid.
pub open spec fn corridor_floors(tiles: Seq<TileType>, c: Seq<usize>) -> bool {
    forall|b: int|
        0 <= b < c.len() ==> ((#[trigger] c[b]) as int) < tiles.len() && tiles[c[b] as int]
            == TileType::Floor
}

/// `b` is `a` with some tiles carved to floor and nothing else changed.
pub open spec fn map_carved(a: GridMap, b: GridMap) -> bool {
    &&& b.wf()
    &&& b.width == a.width
    &&& b.height == a.height
    &&& b.depth == a.depth
    &&& b.name@ == a.name@
    &&& b.tiles@.len() == a.tiles@.len()
    &&& b.revealed_tiles@ == a.revealed_tiles@
    &&& b.visible_tiles@ == a.visible_tiles@
    &&& b.blocked@ == a.blocked@
    &&& b.view_blocked@ == a.view_blocked@
    &&& forall|i: int|
        0 <= i < b.tiles@.len() ==> (#[trigger] b.tiles@[i]) == a.tiles@[i] || b.tiles@[i]
            == TileType::Floor
}

/// Carves a horizontal run of floor at row `y`, recording exactly that
/// run's tile indices, leftmost first.
fn apply_horizontal_tunnel(map: &mut GridMap, x1: i32, x2: i32, y: i32, corridor: &mut Vec<usize>)
    requires
        old(map).wf(),
        0 <= x1 < old(map).width,
        0 <= x2 < old(map).width,
        0 <= y < old(map).height,
    ensures
        map_carved(*old(map), *final(map)),
        final(map).tiles@ == h_tunnel(
            old(map).tiles@,
            old(map).width as int,
            x1 as int,
            x2 as int,
            y as int,
        ),
        final(corridor)@ == old(corridor)@ + h_corridor(
            old(map).width as int,
            x1 as int,
            x2 as int,
            y as int,
        ),
        forall|k: int|
            old(corridor)@.len() <= k < final(corridor)@.len() ==> ((#[trigger] final(corridor)@[k]) as int) < final(map).tiles@.len() && final(map).tiles@[final(corridor)@[k] as int]
                == TileType::Floor,
{
    let ghost w = old(map).width as int;
    let lo: i32 = if x1 < x2 {
        x1
    } else {
        x2
    };
    let hi: i32 = if x1 < x2 {
        x2
    } else {
        x1
    };
    let mut x: i32 = lo;
    while x <= hi
        invariant
            map.wf(),
            w == map.width as int,
            map.width == old(map).width,
            map.height == old(map).height,
            map.tiles@.len() == old(map).tiles@.len(),
            0 <= lo,
            hi < map.width,
            lo <= x <= hi + 1,
            0 <= y < map.height,
            map_carved(*old(map), *map),
            forall|i: int|
                0 <= i < map.tiles@.len() ==> (#[trigger] map.tiles@[i]) == (if i / w == y as int
                    && lo as int <= i % w < x as int {
                    TileType::Floor
                } else {
                    old(map).tiles@[i]
                }),
            corridor@ == old(corridor)@ + Seq::new(
                (x - lo) as nat,
                |k: int| ((y as int) * w + lo as int + k) as usize,
            ),
            forall|k: int|
                old(corridor)@.len() <= k < corridor@.len() ==> ((#[trigger] corridor@[k]) as int)
                    < map.tiles@.len() && map.tiles@[corridor@[k] as int] == TileType::Floor,
        decreases hi + 1 - x,
    {
        let idx: usize = map.xy_idx(x, y);
        proof {
            crate::map::lemma_xy_idx_roundtrip(
                map.width as int,
                map.height as int,
                x as int,
                y as int,
            );
        }
        let ghost t0 = map.tiles@;
        let ghost c0 = corridor@;
        map.tiles.set(idx, TileType::Floor);
        corridor.push(idx);
        proof {
            assert forall|i: int| 0 <= i < map.tiles@.len() implies (#[trigger] map.tiles@[i]) == (
            if i / w == y as int && lo as int <= i % w < x as int + 1 {
                TileType::Floor
            } else {
                old(map).tiles@[i]
            }) by {
                if i != idx as int {
                    crate::map::lemma_idx_xy_in_range(map.width as int, map.height as int, i);
                    assert(map.tiles@[i] == t0[i]);
                }
            }
            assert(corridor@ =~= old(corridor)@ + Seq::new(
                (x + 1 - lo) as nat,
                |k: int| ((y as int) * w + lo as int + k) as usize,
            ));
        }
        x = x + 1;
    }
    proof {
        assert(map.tiles@ =~= h_tunnel(old(map).tiles@, w, x1 as int, x2 as int, y as int));
        assert(corridor@ =~= old(corridor)@ + h_corridor(w, x1 as int, x2 as int, y as int));
    }
}

/// Carves a vertical run of floor at column `x`, recording exactly that
/// run's tile indices, topmost first.
fn apply_vertical_tunnel(map: &mut GridMap, y1: i32, y2: i32, x: i32, corridor: &mut Vec<usize>)
    requires
        old(map).wf(),
        0 <= y1 < old(map).height,
        0 <= y2 < old(map).height,
        0 <= x < old(map).width,
    ensures
        map_carved(*old(map), *final(map)),
        final(map).tiles@ == v_tunnel(
            old(map).tiles@,
            old(map).width as int,
            y1 as int,
            y2 as int,
            x as int,
        ),
        final(corridor)@ == old(corridor)@ + v_corridor(
            old(map).width as int,
            y1 as int,
            y2 as int,
            x as int,
        ),
        forall|k: int|
            old(corridor)@.len() <= k < final(corridor)@.len() ==> ((#[trigger] final(corridor)@[k]) as int) < final(map).tiles@.len() && final(map).tiles@[final(corridor)@[k] as int]
                == TileType::Floor,
{
    let ghost w = old(map).width as int;
    let lo: i32 = if y1 < y2 {
        y1
    } else {
        y2
    };
    let hi: i32 = if y1 < y2 {
        y2
    } else {
        y1
    };
    let mut y: i32 = lo;
    while y <= hi
        invariant
            map.wf(),
            w == map.width as int,
            map.width == old(map).width,
            map.height == old(map).height,
            map.tiles@.len() == old(map).tiles@.len(),
            0 <= lo,
            hi < map.height,
            lo <= y <= hi + 1,
            0 <= x < map.width,
            map_carved(*old(map), *map),
            forall|i: int|
                0 <= i < map.tiles@.len() ==> (#[trigger] map.tiles@[i]) == (if i % w == x as int
                    && lo as int <= i / w < y as int {
                    TileType::Floor
                } else {
                    old(map).tiles@[i]
                }),
            corridor@ == old(corridor)@ + Seq::new(
                (y - lo) as nat,
                |k: int| ((lo as int + k) * w + x as int) as usize,
            ),
            forall|k: int|
                old(corridor)@.len() <= k < corridor@.len() ==> ((#[trigger] corridor@[k]) as int)
                    < map.tiles@.len() && map.tiles@[corridor@[k] as int] == TileType::Floor,
        decreases hi + 1 - y,
    {
        let idx: usize = map.xy_idx(x, y);
        proof {
            crate::map::lemma_xy_idx_roundtrip(
                map.width as int,
                map.height as int,
                x as int,
                y as int,
            );
        }
        let ghost t0 = map.tiles@;
        map.tiles.set(idx, TileType::Floor);
        corridor.push(idx);
        proof {
            assert forall|i: int| 0 <= i < map.tiles@.len() implies (#[trigger] map.tiles@[i]) == (
            if i % w == x as int && lo as int <= i / w < y as int + 1 {
                TileType::Floor
            } else {
                old(map).tiles@[i]
            }) by {
                if i != idx as int {
                    crate::map::lemma_idx_xy_in_range(map.width as int, map.height as int, i);
                    assert(map.tiles@[i] == t0[i]);
                }
            }
            assert(corridor@ =~= old(corridor)@ + Seq::new(
                (y + 1 - lo) as nat,
                |k: int| ((lo as int + k) * w + x as int) as usize,
            ));
        }
        y = y + 1;
    }
    proof {
        assert(map.tiles@ =~= v_tunnel(old(map).tiles@, w, y1 as int, y2 as int, x as int));
        assert(corridor@ =~= old(corridor)@ + v_corridor(w, y1 as int, y2 as int, x as int));
    }
}

/// Places up to `max_attempts` sampled rooms, rejecting any candidate that
/// touches an existing room, and joins each accepted room to the nearest
/// earlier room's centre with an L-shaped corridor.  Tiles only ever turn
/// to floor; the recorded rooms are pairwise disjoint and strictly inside
/// the border.
pub fn rooms_and_corridors(data: &mut BuilderMap, rng: &mut RandomSource, max_attempts: i32)
    requires
        old(data).wf(),
        1 <= max_attempts <= 1000,
    ensures
        final(data).wf(),
        final(data).width == old(data).width,
        final(data).height == old(data).height,
        final(data).map.depth == old(data).map.depth,
        final(data).map.name@ == old(data).map.name@,
        final(data).show_snapshots == old(data).show_snapshots,
        final(data).history@ == old(data).history@,
        final(data).spawn_list@ == old(data).spawn_list@,
        final(data).starting_position == old(data).starting_position,
        forall|i: int|
            0 <= i < final(data).map.tiles@.len() ==> (#[trigger] final(data).map.tiles@[i]) == old(data).map.tiles@[i] || final(data).map.tiles@[i] == TileType::Floor,
        match final(data).rooms {
            Option::Some(rs) => {
                &&& rooms_disjoint(rs@)
                &&& forall|k: int|
                    0 <= k < rs@.len() ==> room_in_bounds(
                        #[trigger] rs@[k],
                        final(data).width as int,
                        final(data).height as int,
                    )
                &&& forall|k: int|
                    0 <= k < rs@.len() ==> room_floors(
                        final(data).map.tiles@,
                        final(data).width as int,
                        #[trigger] rs@[k],
                    )
            },
            Option::None => false,
        },
        match final(data).corridors {
            Option::Some(cs) => forall|a: int|
                0 <= a < cs@.len() ==> corridor_floors(
                    final(data).map.tiles@,
                    (#[trigger] cs@[a])@,
                ),
            Option::None => false,
        },
        ({
            let result = rooms_result(
                old(data).map.tiles@,
                old(data).width as int,
                old(data).height as int,
                old(rng)@,
                max_attempts as int,
            );
            &&& final(data).map.tiles@ == result.0
            &&& (match final(data).rooms {
                Option::Some(rs) => rs@ == result.1,
                Option::None => false,
            })
            &&& (match final(data).corridors {
                Option::Some(cs) => cs@.len() == result.2.len() && forall|a: int|
                    0 <= a < cs@.len() ==> (#[trigger] cs@[a])@ == result.2[a],
                Option::None => false,
            })
            &&& final(rng)@ == result.3
        }),
{
    let ghost tiles0 = old(data).map.tiles@;
    let ghost s0 = rng@;
    let w: i32 = data.width;
    let h: i32 = data.height;
    proof {
        assert(w as int <= 16_000_000 && h as int <= 16_000_000) by (nonlinear_arith)
            requires
                1 <= w,
                1 <= h,
                w as int * h as int <= 16_000_000,
        ;
    }
    let mut rooms_v: Vec<Rect> = Vec::new();
    let mut corridors_v: Vec<Vec<usize>> = Vec::new();
    let mut attempt: i32 = 0;
    while attempt < max_attempts
        invariant
            data.wf(),
            data.width == old(data).width,
            data.height == old(data).height,
            data.map.depth == old(data).map.depth,
            data.map.name@ == old(data).map.name@,
            data.show_snapshots == old(data).show_snapshots,
            data.history@ == old(data).history@,
            data.spawn_list@ == old(data).spawn_list@,
            data.starting_position == old(data).starting_position,
            w == data.width,
            h == data.height,
            w as int <= 16_000_000,
            h as int <= 16_000_000,
            0 <= attempt <= max_attempts,
            forall|i: int|
                0 <= i < data.map.tiles@.len() ==> (#[trigger] data.map.tiles@[i]) == old(data).map.tiles@[i] || data.map.tiles@[i] == TileType::Floor,
            rooms_disjoint(rooms_v@),
            forall|k: int|
                0 <= k < rooms_v@.len() ==> room_in_bounds(#[trigger] rooms_v@[k], w as int, h as int),
            forall|k: int|
                0 <= k < rooms_v@.len() ==> room_floors(
                    data.map.tiles@,
                    w as int,
                    #[trigger] rooms_v@[k],
                ),
            forall|a: int|
                0 <= a < corridors_v@.len() ==> corridor_floors(
                    data.map.tiles@,
                    (#[trigger] corridors_v@[a])@,
                ),
            tiles0 == old(data).map.tiles@,
            s0 == old(rng)@,
            data.map.tiles@ == rooms_result(tiles0, w as int, h as int, s0, attempt as int).0,
            rooms_v@ == rooms_result(tiles0, w as int, h as int, s0, attempt as int).1,
            corridors_v@.len() == rooms_result(tiles0, w as int, h as int, s0, attempt as int).2.len(),
            forall|a: int|
                0 <= a < corridors_v@.len() ==> (#[trigger] corridors_v@[a])@ == rooms_result(
                    tiles0,
                    w as int,
                    h as int,
                    s0,
                    attempt as int,
                ).2[a],
            rng@ == rooms_result(tiles0, w as int, h as int, s0, attempt as int).3,
        decreases max_attempts - attempt,
    {
        let ghost pre_tiles = data.map.tiles@;
        let ghost pre_rooms = rooms_v@;
        let ghost pre_corr_vec = corridors_v@;
        let ghost pre_corr = rooms_result(tiles0, w as int, h as int, s0, attempt as int).2;
        let ghost s_a = rng@;
        let rw: i32 = rng.range(MIN_ROOM_SIZE, MAX_ROOM_SIZE + 1);
        let rh: i32 = rng.range(MIN_ROOM_SIZE, MAX_ROOM_SIZE + 1);
        if w > rw + 3 && h > rh + 3 {
            let x: i32 = rng.range(1, w - rw - 2);
            let y: i32 = rng.range(1, h - rh - 2);
            let ghost s_4 = rng@;
            let room = Rect::new(x, y, rw, rh);
            let mut ok: bool = true;
            let mut k: usize = 0;
            while k < rooms_v.len()
                invariant
                    k <= rooms_v@.len(),
                    ok <==> (forall|t: int|
                        0 <= t < k ==> !room.intersect_spec(#[trigger] rooms_v@[t])),
                decreases rooms_v@.len() - k,
            {
                if room.intersect(&rooms_v[k]) {
                    ok = false;
                }
                k = k + 1;
            }
            if ok {
                apply_room_to_map(&mut data.map, &room);
                if rooms_v.len() > 0 {
                    let near: usize = nearest_room(&rooms_v, &room);
                    let new_c: (i32, i32) = room.center();
                    let old_c: (i32, i32) = rooms_v[near].center();
                    let mut corridor: Vec<usize> = Vec::new();
                    let coin: i32 = rng.range(0, 2);
                    if coin == 0 {
                        apply_horizontal_tunnel(
                            &mut data.map,
                            old_c.0,
                            new_c.0,
                            old_c.1,
                            &mut corridor,
                        );
                        apply_vertical_tunnel(
                            &mut data.map,
                            old_c.1,
                            new_c.1,
                            new_c.0,
                            &mut corridor,
                        );
                        proof {
                            assert(corridor@ =~= h_corridor(
                                w as int,
                                old_c.0 as int,
                                new_c.0 as int,
                                old_c.1 as int,
                            ) + v_corridor(
                                w as int,
                                old_c.1 as int,
                                new_c.1 as int,
                                new_c.0 as int,
                            ));
                        }
                    } else {
                        apply_vertical_tunnel(
                            &mut data.map,
                            old_c.1,
                            new_c.1,
                            old_c.0,
                            &mut corridor,
                        );
                        apply_horizontal_tunnel(
                            &mut data.map,
                            old_c.0,
                            new_c.0,
                            new_c.1,
                            &mut corridor,
                        );
                        proof {
                            assert(corridor@ =~= v_corridor(
                                w as int,
                                old_c.1 as int,
                                new_c.1 as int,
                                old_c.0 as int,
                            ) + h_corridor(
                                w as int,
                                old_c.0 as int,
                                new_c.0 as int,
                                new_c.1 as int,
                            ));
                        }
                    }
                    corridors_v.push(corridor);
                }
                rooms_v.push(room);
                proof {
                    assert forall|a: int, b: int|
                        0 <= a < b < rooms_v@.len() implies !(#[trigger] rooms_v@[a]).intersect_spec(
                        #[trigger] rooms_v@[b],
                    ) by {
                        if b == rooms_v@.len() - 1 {
                            assert(rooms_v@[b] == room);
                            assert(!room.intersect_spec(rooms_v@[a]));
                        }
                    }
                }
            }
        }
        proof {
            let wi = w as int;
            let hi = h as int;
            let stepped = rooms_attempt(pre_tiles, pre_rooms, pre_corr, s_a, wi, hi);
            assert(rooms_result(tiles0, wi, hi, s0, attempt as int + 1) == stepped);
            assert(data.map.tiles@ == stepped.0 && rooms_v@ == stepped.1 && rng@ == stepped.3);
            assert(corridors_v@.len() == stepped.2.len());
            assert forall|a: int| 0 <= a < corridors_v@.len() implies (#[trigger] corridors_v@[a])@
                == stepped.2[a] by {
                if a < pre_corr.len() {
                    assert(corridors_v@[a] == pre_corr_vec[a]);
                }
            }
        }
        attempt = attempt + 1;
    }
    data.rooms = Some(rooms_v);
    data.corridors = Some(corridors_v);
}

/// Absolute value.
pub open spec fn abs_of(x: int) -> int {
    if x < 0 {
        -x
    } else {
        x
    }
}

/// A rectangle's centre tile, rounding down.
pub open spec fn center_of(r: Rect) -> (int, int) {
    ((r.x1 + r.x2) / 2int, (r.y1 + r.y2) / 2int)
}

/// Manhattan distance between two rectangles' centres.
pub open spec fn center_manhattan(a: Rect, b: Rect) -> int {
    abs_of(center_of(a).0 - center_of(b).0) + abs_of(center_of(a).1 - center_of(b).1)
}

/// The index of the recorded room whose centre is nearest (by Manhattan
/// distance) to the candidate room's centre, the earliest room winning
/// ties.
fn nearest_room(rooms: &Vec<Rect>, room: &Rect) -> (r: usize)
    requires
        rooms@.len() >= 1,
        room.wf(),
        forall|k: int| 0 <= k < rooms@.len() ==> (#[trigger] rooms@[k]).wf(),
    ensures
        (r as int) < rooms@.len(),
        r as int == nearest_center_upto(rooms@, *room, rooms@.len() as int),
        forall|t: int|
            0 <= t < rooms@.len() ==> center_manhattan(rooms@[r as int], *room) < center_manhattan(
                #[trigger] rooms@[t],
                *room,
            ) || (center_manhattan(rooms@[r as int], *room) == center_manhattan(rooms@[t], *room)
                && r as int <= t),
{
    let c: (i32, i32) = room.center();
    let mut best: usize = 0;
    let mut best_d: i64 = manhattan(rooms[0].center(), c);
    let mut k: usize = 1;
    while k < rooms.len()
        invariant
            rooms@.len() >= 1,
            room.wf(),
            forall|t: int| 0 <= t < rooms@.len() ==> (#[trigger] rooms@[t]).wf(),
            1 <= k <= rooms@.len(),
            (best as int) < k,
            c.0 as int == center_of(*room).0,
            c.1 as int == center_of(*room).1,
            best as int == nearest_center_upto(rooms@, *room, k as int),
            best_d == center_manhattan(rooms@[best as int], *room),
            forall|t: int|
                0 <= t < k ==> (best_d as int) < center_manhattan(#[trigger] rooms@[t], *room) || ((
                best_d as int) == center_manhattan(rooms@[t], *room) && best as int <= t),
        decreases rooms@.len() - k,
    {
        let d: i64 = manhattan(rooms[k].center(), c);
        proof {
            assert(d as int == center_manhattan(rooms@[k as int], *room));
        }
        if d < best_d {
            best = k;
            best_d = d;
        }
        k = k + 1;
    }
    best
}

/// Manhattan distance between two points.
fn manhattan(a: (i32, i32), b: (i32, i32)) -> (d: i64)
    ensures
        d >= 0,
        d as int == abs_of(a.0 as int - b.0 as int) + abs_of(a.1 as int - b.1 as int),
{
    let dx: i64 = (a.0 as i64) - (b.0 as i64);
    let dy: i64 = (a.1 as i64) - (b.1 as i64);
    let adx: i64 = if dx < 0 {
        -dx
    } else {
        dx
    };
    let ady: i64 = if dy < 0 {
        -dy
    } else {
        dy
    };
    adx + ady
}

} // verus!
