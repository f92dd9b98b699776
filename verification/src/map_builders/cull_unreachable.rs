//! Reachability culling: a flood fill from the starting position across
//! walkable tiles; every walkable tile the fill does not reach is converted
//! to a wall, so that a culled map never shows the player an area it cannot
//! walk to.

use vstd::prelude::*;

verus! {

use vstd::set_lib::{lemma_int_range, lemma_len_subset, set_int_range};
use crate::map::TileType;
use crate::map_builders::{BuilderMap, MapBuildError};

/// Index `i` is a valid, walkable tile of the grid.
pub open spec fn walkable_at(tiles: Seq<TileType>, i: int) -> bool {
    0 <= i < tiles.len() && tiles[i].is_walkable_spec()
}

/// Indices `a` and `b` are 4-connected neighbours on a `w` by `h` grid.
pub open spec fn adjacent_idx(w: int, h: int, a: int, b: int) -> bool {
    &&& 0 <= a < w * h
    &&& 0 <= b < w * h
    &&& ((a % w == b % w && (b / w == a / w + 1 || b / w == a / w - 1)) || (a / w == b / w && (b % w
        == a % w + 1 || b % w == a % w - 1)))
}

/// `p` is a walk across walkable tiles: non-empty, every tile walkable,
/// consecutive tiles 4-connected.
pub open spec fn is_floor_path(tiles: Seq<TileType>, w: int, h: int, p: Seq<int>) -> bool {
    &&& p.len() >= 1
    &&& forall|i: int| 0 <= i < p.len() ==> walkable_at(tiles, #[trigger] p[i])
    &&& forall|i: int| 0 <= i < p.len() - 1 ==> adjacent_idx(w, h, #[trigger] p[i], p[i + 1])
}

/// Tile `to` can be reached from tile `from` by 4-connected movement over
/// walkable tiles.
pub open spec fn reachable(tiles: Seq<TileType>, w: int, h: int, from: int, to: int) -> bool {
    exists|p: Seq<int>| is_floor_path(tiles, w, h, p) && p.first() == from && p.last() == to
}

/// The indices a flood fill has marked.
spec fn visited_set(vis: Seq<bool>) -> Set<int> {
    Set::new(|i: int| 0 <= i < vis.len() && vis[i])
}

/// Reaching `i` from the start along tiles the fill has marked.
spec fn visited_reach(tiles: Seq<TileType>, w: int, h: int, s: int, vis: Seq<bool>, i: int) -> bool {
    exists|p: Seq<int>|
        is_floor_path(tiles, w, h, p) && p.first() == s && p.last() == i && (forall|k: int|
            0 <= k < p.len() ==> 0 <= #[trigger] p[k] < vis.len() && vis[p[k]])
}

/// Index `i` occurs somewhere in the queue.
spec fn in_queue(q: Seq<usize>, i: int) -> bool {
    exists|k: int| 0 <= k < q.len() && ((#[trigger] q[k]) as int) == i
}

/// Every walkable neighbour of a marked tile is marked.
spec fn closed_under_adjacency(tiles: Seq<TileType>, w: int, h: int, vis: Seq<bool>) -> bool {
    forall|c: int, j: int|
        0 <= c < vis.len() && vis[c] && #[trigger] adjacent_idx(w, h, c, j) && walkable_at(
            tiles,
            j,
        ) ==> 0 <= j < vis.len() && vis[j]
}

/// A neighbour of `a` is one of the four adjacent indices, with the
/// matching border-side condition.
proof fn lemma_adjacent_cases(w: int, h: int, a: int, b: int)
    requires
        1 <= w,
        1 <= h,
        adjacent_idx(w, h, a, b),
    ensures
        (a % w >= 1 && b == a - 1) || (a % w < w - 1 && b == a + 1) || (a / w >= 1 && b == a - w)
            || (a / w < h - 1 && b == a + w),
{
    crate::map::lemma_idx_xy_in_range(w, h, a);
    crate::map::lemma_idx_xy_in_range(w, h, b);
    let qa = a / w;
    let ra = a % w;
    let qb = b / w;
    let rb = b % w;
    assert(a == qa * w + ra);
    assert(b == qb * w + rb);
    if ra == rb && (qb == qa + 1 || qb == qa - 1) {
        if qb == qa + 1 {
            assert((qa + 1) * w == qa * w + w) by (nonlinear_arith);
            assert(b == a + w);
        } else {
            assert((qa - 1) * w == qa * w - w) by (nonlinear_arith);
            assert(b == a - w);
        }
    } else {
        assert(qa == qb && (rb == ra + 1 || rb == ra - 1));
    }
}

/// Along a floor path from a marked tile, a closed marking reaches the
/// path's end.
proof fn lemma_closed_reach(tiles: Seq<TileType>, w: int, h: int, vis: Seq<bool>, p: Seq<int>)
    requires
        is_floor_path(tiles, w, h, p),
        vis.len() == tiles.len(),
        0 <= p.first() < vis.len(),
        vis[p.first()],
        closed_under_adjacency(tiles, w, h, vis),
    ensures
        0 <= p.last() < vis.len(),
        vis[p.last()],
    decreases p.len(),
{
    if p.len() > 1 {
        let q = p.drop_last();
        assert forall|i: int| 0 <= i < q.len() implies walkable_at(tiles, #[trigger] q[i]) by {
            assert(q[i] == p[i]);
        }
        assert forall|i: int|
            0 <= i < q.len() - 1 implies adjacent_idx(w, h, #[trigger] q[i], q[i + 1]) by {
            assert(q[i] == p[i]);
            assert(q[i + 1] == p[i + 1]);
            assert(adjacent_idx(w, h, p[i], p[i + 1]));
        }
        assert(is_floor_path(tiles, w, h, q));
        assert(q.first() == p.first());
        lemma_closed_reach(tiles, w, h, vis, q);
        let c = p[p.len() - 2];
        let j = p[p.len() - 1];
        assert(q.last() == c);
        assert(adjacent_idx(w, h, c, j));
        assert(walkable_at(tiles, j));
    }
}

/// Reversing a floor path gives a floor path the other way.
proof fn lemma_path_reverse(tiles: Seq<TileType>, w: int, h: int, p: Seq<int>)
    requires
        is_floor_path(tiles, w, h, p),
    ensures
        is_floor_path(tiles, w, h, p.reverse()),
        p.reverse().first() == p.last(),
        p.reverse().last() == p.first(),
{
    let q = p.reverse();
    assert forall|i: int| 0 <= i < q.len() implies walkable_at(tiles, #[trigger] q[i]) by {
        assert(q[i] == p[p.len() - 1 - i]);
    }
    assert forall|i: int|
        0 <= i < q.len() - 1 implies adjacent_idx(w, h, #[trigger] q[i], q[i + 1]) by {
        let j = p.len() - 2 - i;
        assert(q[i] == p[j + 1]);
        assert(q[i + 1] == p[j]);
        assert(adjacent_idx(w, h, p[j], p[j + 1]));
    }
}

/// Reachability is symmetric: a path can be walked back.
pub proof fn lemma_reachable_sym(tiles: Seq<TileType>, w: int, h: int, a: int, b: int)
    requires
        reachable(tiles, w, h, a, b),
    ensures
        reachable(tiles, w, h, b, a),
{
    let p = choose|p: Seq<int>| is_floor_path(tiles, w, h, p) && p.first() == a && p.last() == b;
    lemma_path_reverse(tiles, w, h, p);
    let q = p.reverse();
    assert(is_floor_path(tiles, w, h, q) && q.first() == b && q.last() == a);
}

/// Reachability is transitive: paths concatenate.
pub proof fn lemma_reachable_trans(tiles: Seq<TileType>, w: int, h: int, a: int, b: int, c: int)
    requires
        reachable(tiles, w, h, a, b),
        reachable(tiles, w, h, b, c),
    ensures
        reachable(tiles, w, h, a, c),
{
    let p = choose|p: Seq<int>| is_floor_path(tiles, w, h, p) && p.first() == a && p.last() == b;
    let q = choose|q: Seq<int>| is_floor_path(tiles, w, h, q) && q.first() == b && q.last() == c;
    let r = p + q.subrange(1, q.len() as int);
    if q.len() == 1 {
        assert(b == c);
        assert(reachable(tiles, w, h, a, c));
    } else {
        assert forall|i: int| 0 <= i < r.len() implies walkable_at(tiles, #[trigger] r[i]) by {
            if i < p.len() {
                assert(r[i] == p[i]);
            } else {
                assert(r[i] == q[i - p.len() + 1]);
            }
        }
        assert forall|i: int|
            0 <= i < r.len() - 1 implies adjacent_idx(w, h, #[trigger] r[i], r[i + 1]) by {
            if i + 1 < p.len() {
                assert(r[i] == p[i]);
                assert(r[i + 1] == p[i + 1]);
                assert(adjacent_idx(w, h, p[i], p[i + 1]));
            } else if i + 1 == p.len() {
                assert(r[i] == p[i]);
                assert(p[i] == p.last());
                assert(r[i + 1] == q[1]);
                assert(adjacent_idx(w, h, q[0], q[1]));
            } else {
                let j = i - p.len() + 1;
                assert(r[i] == q[j]);
                assert(r[i + 1] == q[j + 1]);
                assert(adjacent_idx(w, h, q[j], q[j + 1]));
            }
        }
        assert(r.first() == a);
        assert(r.last() == c);
        assert(is_floor_path(tiles, w, h, r));
    }
}

/// Reachability only reads walkability: two grids walkable at the same
/// indices have the same reachable pairs.
pub proof fn lemma_reachable_same_walkable(
    t1: Seq<TileType>,
    t2: Seq<TileType>,
    w: int,
    h: int,
    a: int,
    b: int,
)
    requires
        t1.len() == t2.len(),
        forall|i: int|
            0 <= i < t1.len() ==> (#[trigger] t2[i]).is_walkable_spec()
                == t1[i].is_walkable_spec(),
        reachable(t1, w, h, a, b),
    ensures
        reachable(t2, w, h, a, b),
{
    let p = choose|p: Seq<int>| is_floor_path(t1, w, h, p) && p.first() == a && p.last() == b;
    assert forall|i: int| 0 <= i < p.len() implies walkable_at(t2, #[trigger] p[i]) by {
        assert(walkable_at(t1, p[i]));
    }
    assert(is_floor_path(t2, w, h, p));
}

/// Reachability from a start is start-independent: once every walkable
/// tile is reachable from one start, every walkable tile is reachable
/// from any walkable tile — in particular from a start selected later in
/// the chain.
pub proof fn lemma_reachable_from_any(tiles: Seq<TileType>, w: int, h: int, s: int, t: int)
    requires
        forall|i: int| #[trigger] walkable_at(tiles, i) ==> reachable(tiles, w, h, s, i),
        walkable_at(tiles, t),
    ensures
        forall|i: int| #[trigger] walkable_at(tiles, i) ==> reachable(tiles, w, h, t, i),
{
    assert forall|i: int| #[trigger] walkable_at(tiles, i) implies reachable(tiles, w, h, t, i) by {
        assert(reachable(tiles, w, h, s, t));
        lemma_reachable_sym(tiles, w, h, s, t);
        assert(reachable(tiles, w, h, s, i));
        lemma_reachable_trans(tiles, w, h, t, s, i);
    }
}

/// Walls off every tile the flood fill from the starting position does not
/// reach.  Afterwards every walkable tile that remains is reachable from
/// the starting position.  Fails, leaving the context untouched, exactly
/// when no starting position has been set.
pub fn cull_unreachable(data: &mut BuilderMap) -> (r: Result<(), MapBuildError>)
    requires
        old(data).wf(),
    ensures
        final(data).wf(),
        final(data).width == old(data).width,
        final(data).height == old(data).height,
        final(data).map.depth == old(data).map.depth,
        final(data).map.name@ == old(data).map.name@,
        final(data).map.width == old(data).map.width,
        final(data).map.height == old(data).map.height,
        final(data).show_snapshots == old(data).show_snapshots,
        final(data).history@ == old(data).history@,
        final(data).spawn_list@ == old(data).spawn_list@,
        final(data).starting_position == old(data).starting_position,
        final(data).rooms == old(data).rooms,
        final(data).corridors == old(data).corridors,
        r is Err <==> old(data).starting_position is None,
        r is Err ==> r == Result::<(), MapBuildError>::Err(MapBuildError::MissingStartingPosition)
            && final(data).map == old(data).map,
        r is Ok ==> {
            let w = old(data).map.width as int;
            let h = old(data).map.height as int;
            let s = old(data).start_idx();
            &&& forall|i: int|
                0 <= i < final(data).map.tiles@.len() ==> final(data).map.tiles@[i] == old(data).map.tiles@[i] || final(data).map.tiles@[i] == TileType::Wall
            &&& forall|i: int|
                walkable_at(final(data).map.tiles@, i) ==> final(data).map.tiles@[i] == old(data).map.tiles@[i]
            &&& forall|i: int|
                #[trigger] walkable_at(final(data).map.tiles@, i) ==> reachable(
                    final(data).map.tiles@,
                    w,
                    h,
                    s,
                    i,
                )
            &&& forall|i: int|
                #[trigger] reachable(old(data).map.tiles@, w, h, s, i) ==> 0 <= i < final(data).map.tiles@.len() && final(data).map.tiles@[i] == old(data).map.tiles@[i]
        },
{
    let start_pos = match data.starting_position {
        Some(p) => p,
        None => {
            return Err(MapBuildError::MissingStartingPosition);
        },
    };
    let w: i32 = data.map.width;
    let h: i32 = data.map.height;
    let n: usize = data.map.tiles.len();
    let sidx: usize = data.map.xy_idx(start_pos.x, start_pos.y);
    proof {
        crate::map::lemma_xy_idx_roundtrip(
            w as int,
            h as int,
            start_pos.x as int,
            start_pos.y as int,
        );
        lemma_int_range(0, n as int);
    }
    let mut visited: Vec<bool> = crate::map::filled_vec(n, false);
    let mut queue: Vec<usize> = Vec::new();
    proof {
        assert(visited_set(visited@) =~= Set::<int>::empty());
        lemma_len_subset(visited_set(visited@), set_int_range(0, n as int));
    }
    if data.map.tiles[sidx].is_walkable() {
        let ghost oldvis = visited@;
        visited.set(sidx, true);
        queue.push(sidx);
        proof {
            assert(visited_set(visited@) =~= visited_set(oldvis).insert(sidx as int));
            lemma_len_subset(visited_set(visited@), set_int_range(0, n as int));
            let unit = seq![sidx as int];
            assert(unit.len() == 1);
            assert(unit[0] == sidx as int);
            assert(is_floor_path(data.map.tiles@, w as int, h as int, unit));
            assert(unit.first() == sidx as int && unit.last() == sidx as int);
            assert(forall|k: int|
                0 <= k < unit.len() ==> 0 <= #[trigger] unit[k] < visited@.len()
                    && visited@[unit[k]]);
            assert(visited_reach(
                data.map.tiles@,
                w as int,
                h as int,
                sidx as int,
                visited@,
                sidx as int,
            ));
            assert((queue@[0] as int) == sidx as int);
            assert(in_queue(queue@, sidx as int));
        }
    }
    let mut qi: usize = 0;
    while qi < queue.len()
        invariant
            data.wf(),
            data == old(data),
            w == data.map.width,
            h == data.map.height,
            n == data.map.tiles@.len(),
            (sidx as int) < n,
            visited@.len() == n,
            qi <= queue@.len(),
            visited_set(visited@).finite(),
            visited_set(visited@).len() <= n,
            queue@.len() <= visited_set(visited@).len(),
            walkable_at(data.map.tiles@, sidx as int) ==> visited@[sidx as int],
            forall|k: int|
                0 <= k < queue@.len() ==> (#[trigger] queue@[k] as int) < n
                    && visited@[queue@[k] as int],
            forall|i: int| 0 <= i < n && (#[trigger] visited@[i]) ==> in_queue(queue@, i),
            forall|k: int, j: int|
                0 <= k < qi && #[trigger] adjacent_idx(
                    w as int,
                    h as int,
                    queue@[k] as int,
                    j,
                ) && walkable_at(data.map.tiles@, j) ==> 0 <= j < visited@.len()
                    && visited@[j],
            forall|i: int|
                0 <= i < n && (#[trigger] visited@[i]) ==> visited_reach(
                    data.map.tiles@,
                    w as int,
                    h as int,
                    sidx as int,
                    visited@,
                    i,
                ),
        decreases n - qi,
    {
        let cur: usize = queue[qi];
        qi = qi + 1;
        let p: (i32, i32) = data.map.idx_xy(cur);
        proof {
            crate::map::lemma_xy_idx_roundtrip(w as int, h as int, p.0 as int, p.1 as int);
        }
        let ghost vis0 = visited@;
        let ghost q0 = queue@;
        if p.0 > 0 {
            proof {
                lemma_neighbor_adjacent(w as int, h as int, p.0 as int, p.1 as int, p.0 - 1, p.1 as int);
            }
            bfs_try_visit(data, &mut visited, &mut queue, cur, p.0 - 1, p.1, sidx);
        }
        let ghost vis_w = visited@;
        let ghost q_w = queue@;
        if p.0 < w - 1 {
            proof {
                lemma_neighbor_adjacent(w as int, h as int, p.0 as int, p.1 as int, p.0 + 1, p.1 as int);
            }
            bfs_try_visit(data, &mut visited, &mut queue, cur, p.0 + 1, p.1, sidx);
        }
        let ghost vis_e = visited@;
        let ghost q_e = queue@;
        if p.1 > 0 {
            proof {
                lemma_neighbor_adjacent(w as int, h as int, p.0 as int, p.1 as int, p.0 as int, p.1 - 1);
            }
            bfs_try_visit(data, &mut visited, &mut queue, cur, p.0, p.1 - 1, sidx);
        }
        let ghost vis_n = visited@;
        let ghost q_n = queue@;
        if p.1 < h - 1 {
            proof {
                lemma_neighbor_adjacent(w as int, h as int, p.0 as int, p.1 as int, p.0 as int, p.1 + 1);
            }
            bfs_try_visit(data, &mut visited, &mut queue, cur, p.0, p.1 + 1, sidx);
        }
        proof {
            let wi = w as int;
            let hi = h as int;
            let tiles = data.map.tiles@;
            let px = p.0 as int;
            let py = p.1 as int;
            assert(cur as int == py * wi + px);
            assert forall|k: int, j: int|
                0 <= k < qi && #[trigger] adjacent_idx(wi, hi, queue@[k] as int, j) && walkable_at(
                    tiles,
                    j,
                ) implies 0 <= j < visited@.len() && visited@[j] by {
                assert(q0[k] == q_w[k] && q_w[k] == q_e[k] && q_e[k] == q_n[k] && q_n[k]
                    == queue@[k]);
                if k == qi - 1 {
                    assert(queue@[k] == cur);
                    lemma_adjacent_cases(wi, hi, cur as int, j);
                    assert((cur as int) % wi == px);
                    assert((cur as int) / wi == py);
                    if px >= 1 && j == cur as int - 1 {
                        assert(j == py * wi + (px - 1));
                        assert(vis_w[j]);
                        assert(vis_e[j]);
                        assert(vis_n[j]);
                        assert(visited@[j]);
                    } else if px < wi - 1 && j == cur as int + 1 {
                        assert(j == py * wi + (px + 1));
                        assert(vis_e[j]);
                        assert(vis_n[j]);
                        assert(visited@[j]);
                    } else if py >= 1 && j == cur as int - wi {
                        assert(j == (py - 1) * wi + px) by (nonlinear_arith)
                            requires
                                j == py * wi + px - wi,
                        ;
                        assert(vis_n[j]);
                        assert(visited@[j]);
                    } else {
                        assert(py < hi - 1 && j == cur as int + wi);
                        assert(j == (py + 1) * wi + px) by (nonlinear_arith)
                            requires
                                j == py * wi + px + wi,
                        ;
                        assert(visited@[j]);
                    }
                } else {
                    assert(adjacent_idx(wi, hi, q0[k] as int, j));
                    assert(0 <= j < vis0.len() && vis0[j]);
                    assert(vis_w[j]);
                    assert(vis_e[j]);
                    assert(vis_n[j]);
                    assert(visited@[j]);
                }
            }
        }
    }
    let ghost orig = data.map.tiles@;
    proof {
        let wi = w as int;
        let hi = h as int;
        assert forall|c: int, j: int|
            0 <= c < visited@.len() && visited@[c] && #[trigger] adjacent_idx(wi, hi, c, j)
                && walkable_at(orig, j) implies 0 <= j < visited@.len() && visited@[j] by {
            assert(in_queue(queue@, c));
            let k = choose|k: int| 0 <= k < queue@.len() && ((#[trigger] queue@[k]) as int) == c;
            assert(adjacent_idx(wi, hi, queue@[k] as int, j));
        }
        assert(closed_under_adjacency(orig, wi, hi, visited@));
    }
    let mut i: usize = 0;
    while i < n
        invariant
            orig == old(data).map.tiles@,
            data.wf(),
            data.map.tiles@.len() == old(data).map.tiles@.len(),
            data.map.width == old(data).map.width,
            data.map.height == old(data).map.height,
            data.map.depth == old(data).map.depth,
            data.map.name@ == old(data).map.name@,
            data.map.revealed_tiles@ == old(data).map.revealed_tiles@,
            data.map.visible_tiles@ == old(data).map.visible_tiles@,
            data.map.blocked@ == old(data).map.blocked@,
            data.map.view_blocked@ == old(data).map.view_blocked@,
            data.width == old(data).width,
            data.height == old(data).height,
            data.show_snapshots == old(data).show_snapshots,
            data.history@ == old(data).history@,
            data.spawn_list@ == old(data).spawn_list@,
            data.starting_position == old(data).starting_position,
            data.rooms == old(data).rooms,
            data.corridors == old(data).corridors,
            w == data.map.width,
            h == data.map.height,
            n == data.map.tiles@.len(),
            (sidx as int) < n,
            i <= n,
            visited@.len() == n,
            closed_under_adjacency(orig, w as int, h as int, visited@),
            walkable_at(orig, sidx as int) ==> visited@[sidx as int],
            forall|j: int|
                0 <= j < i ==> data.map.tiles@[j] == (if walkable_at(orig, j) && !visited@[j] {
                    TileType::Wall
                } else {
                    orig[j]
                }),
            forall|j: int| i <= j < n ==> data.map.tiles@[j] == orig[j],
            forall|j: int|
                0 <= j < n && (#[trigger] visited@[j]) ==> visited_reach(
                    orig,
                    w as int,
                    h as int,
                    sidx as int,
                    visited@,
                    j,
                ),
        decreases n - i,
    {
        let ghost t0 = data.map.tiles@;
        let walk: bool = data.map.tiles[i].is_walkable();
        let seen: bool = visited[i];
        if walk && !seen {
            data.map.tiles.set(i, TileType::Wall);
        }
        proof {
            assert forall|j: int| 0 <= j < i as int + 1 implies data.map.tiles@[j] == (if
            walkable_at(orig, j) && !visited@[j] {
                TileType::Wall
            } else {
                orig[j]
            }) by {
                if j < i as int {
                    assert(t0[j] == (if walkable_at(orig, j) && !visited@[j] {
                        TileType::Wall
                    } else {
                        orig[j]
                    }));
                    assert(data.map.tiles@[j] == t0[j]);
                }
            }
        }
        i = i + 1;
    }
    proof {
        let ft = data.map.tiles@;
        let ot = old(data).map.tiles@;
        let wi = w as int;
        let hi = h as int;
        assert forall|i: int| 0 <= i < ft.len() implies ft[i] == ot[i] || ft[i] == TileType::Wall by {
            assert(ft[i] == (if walkable_at(ot, i) && !visited@[i] {
                TileType::Wall
            } else {
                ot[i]
            }));
        }
        assert forall|j: int| #[trigger] walkable_at(ft, j) implies reachable(
            ft,
            wi,
            hi,
            sidx as int,
            j,
        ) by {
            assert(ft[j] == (if walkable_at(ot, j) && !visited@[j] {
                TileType::Wall
            } else {
                ot[j]
            }));
            assert(visited@[j]);
            assert(ft[j] == ot[j]);
            let pth = choose|pth: Seq<int>|
                is_floor_path(ot, wi, hi, pth) && pth.first() == sidx as int && pth.last() == j && (
                forall|k: int|
                    0 <= k < pth.len() ==> 0 <= #[trigger] pth[k] < visited@.len()
                        && visited@[pth[k]]);
            assert forall|k: int| 0 <= k < pth.len() implies walkable_at(ft, #[trigger] pth[k]) by {
                assert(walkable_at(ot, pth[k]));
                assert(visited@[pth[k]]);
                assert(ft[pth[k]] == (if walkable_at(ot, pth[k]) && !visited@[pth[k]] {
                    TileType::Wall
                } else {
                    ot[pth[k]]
                }));
            }
            assert(is_floor_path(ft, wi, hi, pth));
        }
        assert forall|i: int| #[trigger] reachable(ot, wi, hi, sidx as int, i) implies 0 <= i
            < ft.len() && ft[i] == ot[i] by {
            let pth = choose|pth: Seq<int>|
                is_floor_path(ot, wi, hi, pth) && pth.first() == sidx as int && pth.last() == i;
            assert(walkable_at(ot, pth[0]));
            assert(visited@[sidx as int]);
            lemma_closed_reach(ot, wi, hi, visited@, pth);
            assert(visited@[i]);
            assert(walkable_at(ot, i));
            assert(ft[i] == (if walkable_at(ot, i) && !visited@[i] {
                TileType::Wall
            } else {
                ot[i]
            }));
        }
        assert(old(data).start_idx() == sidx as int);
    }
    Ok(())
}

/// Two coordinates one step apart map to 4-connected indices.
proof fn lemma_neighbor_adjacent(w: int, h: int, cx: int, cy: int, nx: int, ny: int)
    requires
        1 <= w,
        1 <= h,
        0 <= cx < w,
        0 <= cy < h,
        0 <= nx < w,
        0 <= ny < h,
        (nx == cx && (ny == cy + 1 || ny == cy - 1)) || (ny == cy && (nx == cx + 1 || nx == cx
            - 1)),
    ensures
        adjacent_idx(w, h, cy * w + cx, ny * w + nx),
{
    crate::map::lemma_xy_idx_in_range(w, h, cx, cy);
    crate::map::lemma_xy_idx_in_range(w, h, nx, ny);
    crate::map::lemma_xy_idx_roundtrip(w, h, cx, cy);
    crate::map::lemma_xy_idx_roundtrip(w, h, nx, ny);
}

/// Marks and enqueues the neighbour (nx, ny) of `cur` when it is walkable
/// and not yet visited, keeping the flood fill's bookkeeping intact.
fn bfs_try_visit(
    data: &BuilderMap,
    visited: &mut Vec<bool>,
    queue: &mut Vec<usize>,
    cur: usize,
    nx: i32,
    ny: i32,
    sidx: usize,
)
    requires
        data.wf(),
        data.map.in_bounds(nx as int, ny as int),
        (cur as int) < data.map.tiles@.len(),
        old(visited)@.len() == data.map.tiles@.len(),
        old(visited)@[cur as int],
        (sidx as int) < data.map.tiles@.len(),
        adjacent_idx(
            data.map.width as int,
            data.map.height as int,
            cur as int,
            (ny as int) * (data.map.width as int) + (nx as int),
        ),
        visited_set(old(visited)@).finite(),
        visited_set(old(visited)@).len() <= data.map.tiles@.len(),
        old(queue)@.len() <= visited_set(old(visited)@).len(),
        forall|k: int|
            0 <= k < old(queue)@.len() ==> (#[trigger] old(queue)@[k] as int)
                < data.map.tiles@.len() && old(visited)@[old(queue)@[k] as int],
        forall|i: int|
            0 <= i < data.map.tiles@.len() && (#[trigger] old(visited)@[i]) ==> in_queue(
                old(queue)@,
                i,
            ),
        forall|i: int|
            0 <= i < data.map.tiles@.len() && (#[trigger] old(visited)@[i]) ==> visited_reach(
                data.map.tiles@,
                data.map.width as int,
                data.map.height as int,
                sidx as int,
                old(visited)@,
                i,
            ),
    ensures
        final(visited)@.len() == data.map.tiles@.len(),
        visited_set(final(visited)@).finite(),
        visited_set(final(visited)@).len() <= data.map.tiles@.len(),
        final(queue)@.len() <= visited_set(final(visited)@).len(),
        final(queue)@.len() >= old(queue)@.len(),
        forall|k: int|
            0 <= k < old(queue)@.len() ==> final(queue)@[k] == old(queue)@[k],
        forall|k: int|
            0 <= k < final(queue)@.len() ==> (#[trigger] final(queue)@[k] as int)
                < data.map.tiles@.len() && final(visited)@[final(queue)@[k] as int],
        forall|i: int|
            0 <= i < data.map.tiles@.len() && (#[trigger] final(visited)@[i]) ==> in_queue(
                final(queue)@,
                i,
            ),
        walkable_at(data.map.tiles@, (ny as int) * (data.map.width as int) + (nx as int))
            ==> final(visited)@[(ny as int) * (data.map.width as int) + (nx as int)],
        forall|i: int|
            0 <= i < data.map.tiles@.len() && (#[trigger] final(visited)@[i]) ==> visited_reach(
                data.map.tiles@,
                data.map.width as int,
                data.map.height as int,
                sidx as int,
                final(visited)@,
                i,
            ),
{
    let j: usize = data.map.xy_idx(nx, ny);
    proof {
        crate::map::lemma_xy_idx_roundtrip(
            data.map.width as int,
            data.map.height as int,
            nx as int,
            ny as int,
        );
        lemma_int_range(0, data.map.tiles@.len() as int);
        assert(visited_set(old(visited)@).subset_of(
            set_int_range(0, data.map.tiles@.len() as int),
        ));
    }
    if data.map.tiles[j].is_walkable() && !visited[j] {
        let ghost oldvis = visited@;
        visited.set(j, true);
        queue.push(j);
        proof {
            let wi = data.map.width as int;
            let hi = data.map.height as int;
            let tiles = data.map.tiles@;
            assert(visited_set(visited@) =~= visited_set(oldvis).insert(j as int));
            assert(!visited_set(oldvis).contains(j as int));
            assert(visited_set(visited@).len() == visited_set(oldvis).len() + 1);
            lemma_len_subset(visited_set(visited@), set_int_range(0, tiles.len() as int));
            assert forall|i: int| 0 <= i < tiles.len() && (#[trigger] visited@[i]) implies in_queue(
                queue@,
                i,
            ) by {
                if i == j as int {
                    assert((queue@[queue@.len() - 1] as int) == i);
                } else {
                    assert(oldvis[i]);
                    assert(in_queue(old(queue)@, i));
                    let k = choose|k: int|
                        0 <= k < old(queue)@.len() && ((#[trigger] old(queue)@[k]) as int) == i;
                    assert((queue@[k] as int) == i);
                }
            }
            assert forall|i: int|
                0 <= i < tiles.len() && visited@[i] implies visited_reach(
                tiles,
                wi,
                hi,
                sidx as int,
                visited@,
                i,
            ) by {
                if i == j as int {
                    let pc = choose|pc: Seq<int>|
                        is_floor_path(tiles, wi, hi, pc) && pc.first() == sidx as int && pc.last()
                            == cur as int && (forall|k: int|
                            0 <= k < pc.len() ==> 0 <= #[trigger] pc[k] < oldvis.len()
                                && oldvis[pc[k]]);
                    let pn = pc.push(j as int);
                    assert(walkable_at(tiles, j as int));
                    assert forall|k: int| 0 <= k < pn.len() implies walkable_at(
                        tiles,
                        #[trigger] pn[k],
                    ) by {
                        if k < pc.len() {
                            assert(pn[k] == pc[k]);
                        } else {
                            assert(pn[k] == j as int);
                        }
                    }
                    assert forall|k: int| 0 <= k < pn.len() - 1 implies adjacent_idx(
                        wi,
                        hi,
                        #[trigger] pn[k],
                        pn[k + 1],
                    ) by {
                        if k < pc.len() - 1 {
                            assert(pn[k] == pc[k]);
                            assert(pn[k + 1] == pc[k + 1]);
                            assert(adjacent_idx(wi, hi, pc[k], pc[k + 1]));
                        } else {
                            assert(pn[k] == pc.last());
                            assert(pn[k + 1] == j as int);
                        }
                    }
                    assert forall|k: int|
                        0 <= k < pn.len() implies 0 <= #[trigger] pn[k] < visited@.len()
                        && visited@[pn[k]] by {
                        if k < pc.len() {
                            assert(pn[k] == pc[k]);
                            assert(oldvis[pc[k]]);
                        } else {
                            assert(pn[k] == j as int);
                        }
                    }
                    assert(is_floor_path(tiles, wi, hi, pn) && pn.first() == sidx as int
                        && pn.last() == i);
                } else {
                    assert(oldvis[i]);
                    let pc = choose|pc: Seq<int>|
                        is_floor_path(tiles, wi, hi, pc) && pc.first() == sidx as int && pc.last()
                            == i && (forall|k: int|
                            0 <= k < pc.len() ==> 0 <= #[trigger] pc[k] < oldvis.len()
                                && oldvis[pc[k]]);
                    assert forall|k: int|
                        0 <= k < pc.len() implies 0 <= #[trigger] pc[k] < visited@.len()
                        && visited@[pc[k]] by {
                        assert(oldvis[pc[k]]);
                    }
                    assert(is_floor_path(tiles, wi, hi, pc) && pc.first() == sidx as int
                        && pc.last() == i);
                }
            }
        }
    }
}

} // verus!
