//! Start- and end-position selection: deterministically picks the walkable
//! tile nearest a named corner or centre target.

use vstd::prelude::*;

verus! {

use crate::map::{GridMap, TileType};
use crate::map_builders::{BuilderMap, MapBuildError, Position};

/// Horizontal target for a starting position.
#[derive(Clone, Copy, PartialEq, Eq, Structural, Debug)]
pub enum XStart {
    Left,
    Center,
    Right,
}

/// Vertical target for a starting position.
#[derive(Clone, Copy, PartialEq, Eq, Structural, Debug)]
pub enum YStart {
    Top,
    Center,
    Bottom,
}

/// Horizontal target for the exit.
#[derive(Clone, Copy, PartialEq, Eq, Structural, Debug)]
pub enum XEnd {
    Left,
    Center,
    Right,
}

/// Vertical target for the exit.
#[derive(Clone, Copy, PartialEq, Eq, Structural, Debug)]
pub enum YEnd {
    Top,
    Center,
    Bottom,
}

/// The column a horizontal start target names.
pub open spec fn x_start_target(x: XStart, w: int) -> int {
    match x {
        XStart::Left => 1,
        XStart::Center => w / 2,
        XStart::Right => w - 2,
    }
}

/// The row a vertical start target names.
pub open spec fn y_start_target(y: YStart, h: int) -> int {
    match y {
        YStart::Top => 1,
        YStart::Center => h / 2,
        YStart::Bottom => h - 2,
    }
}

/// The column a horizontal end target names.
pub open spec fn x_end_target(x: XEnd, w: int) -> int {
    match x {
        XEnd::Left => 1,
        XEnd::Center => w / 2,
        XEnd::Right => w - 2,
    }
}

/// The row a vertical end target names.
pub open spec fn y_end_target(y: YEnd, h: int) -> int {
    match y {
        YEnd::Top => 1,
        YEnd::Center => h / 2,
        YEnd::Bottom => h - 2,
    }
}

/// Squared Euclidean distance from tile index `i` to the target (tx, ty).
pub open spec fn tile_dist2(m: GridMap, i: int, tx: int, ty: int) -> int {
    let x = i % (m.width as int);
    let y = i / (m.width as int);
    (x - tx) * (x - tx) + (y - ty) * (y - ty)
}

/// Index `k` is the selected tile: walkable, and no walkable tile is
/// strictly closer to the target nor equally close with a smaller index.
pub open spec fn first_closest_walkable(m: GridMap, tx: int, ty: int, k: int) -> bool {
    &&& 0 <= k < m.tiles@.len()
    &&& m.tiles@[k].is_walkable_spec()
    &&& forall|j: int|
        0 <= j < m.tiles@.len() && m.tiles@[j].is_walkable_spec() ==> tile_dist2(m, k, tx, ty)
            < tile_dist2(m, j, tx, ty) || (tile_dist2(m, k, tx, ty) == tile_dist2(m, j, tx, ty)
            && k <= j)
}

/// The selection is pinned down: any two tiles satisfying the contract
/// coincide, so a start or exit choice is uniquely determined by the map
/// and the target.
pub proof fn lemma_closest_unique(m: GridMap, tx: int, ty: int, k1: int, k2: int)
    requires
        first_closest_walkable(m, tx, ty, k1),
        first_closest_walkable(m, tx, ty, k2),
    ensures
        k1 == k2,
{
    assert(tile_dist2(m, k1, tx, ty) < tile_dist2(m, k2, tx, ty) || (tile_dist2(m, k1, tx, ty)
        == tile_dist2(m, k2, tx, ty) && k1 <= k2));
    assert(tile_dist2(m, k2, tx, ty) < tile_dist2(m, k1, tx, ty) || (tile_dist2(m, k2, tx, ty)
        == tile_dist2(m, k1, tx, ty) && k2 <= k1));
}

/// There is some walkable tile on the map.
pub open spec fn has_walkable(m: GridMap) -> bool {
    exists|i: int| 0 <= i < m.tiles@.len() && (#[trigger] m.tiles@[i]).is_walkable_spec()
}

/// The walkable tile nearest the target, preferring the lowest index on
/// ties, or `None` when the map has no walkable tile.
fn find_closest_walkable(map: &GridMap, tx: i32, ty: i32) -> (r: Option<usize>)
    requires
        map.wf(),
        -2 <= tx <= map.width,
        -2 <= ty <= map.height,
    ensures
        r is None <==> !has_walkable(*map),
        match r {
            Option::Some(k) => first_closest_walkable(*map, tx as int, ty as int, k as int),
            Option::None => true,
        },
{
    let mut best: Option<usize> = None;
    let mut best_dist: i64 = 0;
    let n: usize = map.tiles.len();
    let mut i: usize = 0;
    while i < n
        invariant
            map.wf(),
            i <= n,
            n == map.tiles@.len(),
            -2 <= tx <= map.width,
            -2 <= ty <= map.height,
            match best {
                Option::Some(k) => {
                    &&& (k as int) < i
                    &&& map.tiles@[k as int].is_walkable_spec()
                    &&& best_dist == tile_dist2(*map, k as int, tx as int, ty as int)
                    &&& forall|j: int|
                        0 <= j < i && map.tiles@[j].is_walkable_spec() ==> (best_dist as int)
                            < tile_dist2(*map, j, tx as int, ty as int) || ((best_dist as int)
                            == tile_dist2(*map, j, tx as int, ty as int) && k as int <= j)
                },
                Option::None => forall|j: int|
                    0 <= j < i ==> !(#[trigger] map.tiles@[j]).is_walkable_spec(),
            },
        decreases n - i,
    {
        if map.tiles[i].is_walkable() {
            let p: (i32, i32) = map.idx_xy(i);
            proof {
                crate::map::lemma_xy_idx_roundtrip(
                    map.width as int,
                    map.height as int,
                    p.0 as int,
                    p.1 as int,
                );
                lemma_dist2_fits(
                    p.0 as int,
                    p.1 as int,
                    tx as int,
                    ty as int,
                    map.width as int,
                    map.height as int,
                );
            }
            let dx: i64 = (p.0 as i64) - (tx as i64);
            let dy: i64 = (p.1 as i64) - (ty as i64);
            let d: i64 = dx * dx + dy * dy;
            match best {
                None => {
                    best = Some(i);
                    best_dist = d;
                },
                Some(_) => {
                    if d < best_dist {
                        best = Some(i);
                        best_dist = d;
                    }
                },
            }
        }
        i = i + 1;
    }
    best
}

/// The squared distance from an on-map coordinate to a near-map target
/// stays far from the 64-bit limit.
proof fn lemma_dist2_fits(x: int, y: int, tx: int, ty: int, w: int, h: int)
    by (nonlinear_arith)
    requires
        1 <= w,
        1 <= h,
        w * h <= 16_000_000,
        0 <= x < w,
        0 <= y < h,
        -2 <= tx <= w,
        -2 <= ty <= h,
    ensures
        0 <= (x - tx) * (x - tx) <= 0x1000_0000_0000_0000,
        0 <= (y - ty) * (y - ty) <= 0x1000_0000_0000_0000,
{
}

/// Selects the walkable tile nearest the named target as the starting
/// position.  Fails, leaving the context untouched, exactly when no
/// walkable tile exists yet.
pub fn area_starting_position(data: &mut BuilderMap, x: XStart, y: YStart) -> (r: Result<
    (),
    MapBuildError,
>)
    requires
        old(data).wf(),
    ensures
        final(data).wf(),
        final(data).map == old(data).map,
        final(data).spawn_list@ == old(data).spawn_list@,
        final(data).rooms == old(data).rooms,
        final(data).corridors == old(data).corridors,
        final(data).history@ == old(data).history@,
        final(data).width == old(data).width,
        final(data).height == old(data).height,
        final(data).show_snapshots == old(data).show_snapshots,
        r is Err <==> !has_walkable(old(data).map),
        r is Err ==> r == Result::<(), MapBuildError>::Err(MapBuildError::NoFloorTiles) && final(data).starting_position == old(data).starting_position,
        r is Ok ==> match final(data).starting_position {
            Option::Some(p) => first_closest_walkable(
                final(data).map,
                x_start_target(x, old(data).width as int),
                y_start_target(y, old(data).height as int),
                final(data).start_idx(),
            ) && final(data).start_idx() == p.y as int * final(data).map.width as int + p.x as int,
            Option::None => false,
        },
{
    let tx: i32 = x_target_of_start(x, data.width);
    let ty: i32 = y_target_of_start(y, data.height);
    match find_closest_walkable(&data.map, tx, ty) {
        Some(k) => {
            let p: (i32, i32) = data.map.idx_xy(k);
            proof {
                crate::map::lemma_xy_idx_roundtrip(
                    data.map.width as int,
                    data.map.height as int,
                    p.0 as int,
                    p.1 as int,
                );
            }
            data.starting_position = Some(Position { x: p.0, y: p.1 });
            Ok(())
        },
        None => Err(MapBuildError::NoFloorTiles),
    }
}

/// Selects the walkable tile nearest the named target and stamps the
/// down-staircase there.  Fails, leaving the context untouched, exactly
/// when no walkable tile exists.
pub fn area_ending_position(data: &mut BuilderMap, x: XEnd, y: YEnd) -> (r: Result<
    (),
    MapBuildError,
>)
    requires
        old(data).wf(),
    ensures
        final(data).wf(),
        final(data).starting_position == old(data).starting_position,
        final(data).spawn_list@ == old(data).spawn_list@,
        final(data).rooms == old(data).rooms,
        final(data).corridors == old(data).corridors,
        final(data).history@ == old(data).history@,
        final(data).width == old(data).width,
        final(data).height == old(data).height,
        final(data).show_snapshots == old(data).show_snapshots,
        final(data).map.depth == old(data).map.depth,
        final(data).map.name@ == old(data).map.name@,
        final(data).map.width == old(data).map.width,
        final(data).map.height == old(data).map.height,
        r is Err <==> !has_walkable(old(data).map),
        r is Err ==> r == Result::<(), MapBuildError>::Err(MapBuildError::NoFloorTiles) && final(data).map == old(data).map,
        r is Ok ==> exists|k: int|
            {
                &&& #[trigger] first_closest_walkable(
                    old(data).map,
                    x_end_target(x, old(data).width as int),
                    y_end_target(y, old(data).height as int),
                    k,
                )
                &&& final(data).map.tiles@ == old(data).map.tiles@.update(
                    k,
                    TileType::DownStairs,
                )
            },
        r is Ok && crate::map_builders::no_stairs(old(data).map.tiles@)
            ==> crate::map_builders::exactly_one_stairs(final(data).map.tiles@),
    {
    let tx: i32 = x_target_of_end(x, data.width);
    let ty: i32 = y_target_of_end(y, data.height);
    match find_closest_walkable(&data.map, tx, ty) {
        Some(k) => {
            proof {
                if crate::map_builders::no_stairs(data.map.tiles@) {
                    crate::map_builders::lemma_single_exit(
                        data.map.tiles@,
                        k as int,
                        data.map.tiles@.update(k as int, TileType::DownStairs),
                    );
                }
            }
            data.map.tiles.set(k, TileType::DownStairs);
            Ok(())
        },
        None => Err(MapBuildError::NoFloorTiles),
    }
}

/// The column a horizontal start target names.
fn x_target_of_start(x: XStart, w: i32) -> (t: i32)
    requires
        1 <= w,
    ensures
        t as int == x_start_target(x, w as int),
{
    match x {
        XStart::Left => 1,
        XStart::Center => w / 2,
        XStart::Right => w - 2,
    }
}

/// The row a vertical start target names.
fn y_target_of_start(y: YStart, h: i32) -> (t: i32)
    requires
        1 <= h,
    ensures
        t as int == y_start_target(y, h as int),
{
    match y {
        YStart::Top => 1,
        YStart::Center => h / 2,
        YStart::Bottom => h - 2,
    }
}

/// The column a horizontal end target names.
fn x_target_of_end(x: XEnd, w: i32) -> (t: i32)
    requires
        1 <= w,
    ensures
        t as int == x_end_target(x, w as int),
{
    match x {
        XEnd::Left => 1,
        XEnd::Center => w / 2,
        XEnd::Right => w - 2,
    }
}

/// The row a vertical end target names.
fn y_target_of_end(y: YEnd, h: i32) -> (t: i32)
    requires
        1 <= h,
    ensures
        t as int == y_end_target(y, h as int),
{
    match y {
        YEnd::Top => 1,
        YEnd::Center => h / 2,
        YEnd::Bottom => h - 2,
    }
}

} // verus!
