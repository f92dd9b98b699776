//! The dense 2D tile grid that every builder step reads and writes.

use vstd::prelude::*;

verus! {

use vstd::arithmetic::div_mod::lemma_fundamental_div_mod_converse;

/// One cell of the grid.  Builder steps may only write these values during
/// generation; the grid is frozen once the chain completes.
#[derive(Clone, Copy, PartialEq, Eq, Structural, Debug)]
pub enum TileType {
    Wall,
    Floor,
    DownStairs,
}

impl TileType {
    /// Whether a creature can stand on (and move through) this tile.
    pub open spec fn is_walkable_spec(self) -> bool {
        self == TileType::Floor || self == TileType::DownStairs
    }

    pub fn is_walkable(self) -> (r: bool)
        ensures
            r == self.is_walkable_spec(),
    {
        match self {
            TileType::Floor => true,
            TileType::DownStairs => true,
            TileType::Wall => false,
        }
    }
}

/// The largest number of tiles a map may hold: keeps every index
/// representable as an `i32` and all index and distance arithmetic
/// overflow-free.
pub const MAX_TILES: i32 = 16_000_000;

/// Dense, row-major tile grid plus per-tile flags.
///
/// Every index in `[0, width * height)` addresses one tile; the
/// coordinate-to-index conversion `xy_idx` is the sole addressing mechanism.
pub struct GridMap {
    pub tiles: Vec<TileType>,
    pub width: i32,
    pub height: i32,
    pub revealed_tiles: Vec<bool>,
    pub visible_tiles: Vec<bool>,
    pub blocked: Vec<bool>,
    pub view_blocked: Vec<bool>,
    pub depth: i32,
    pub name: String,
}

impl GridMap {
    /// Number of cells in the grid.
    pub open spec fn area(self) -> int {
        self.width as int * self.height as int
    }

    /// Structural well-formedness: positive dimensions, index arithmetic
    /// free of overflow, and every per-tile vector of exactly `area` length.
    pub open spec fn wf(self) -> bool {
        &&& 1 <= self.width
        &&& 1 <= self.height
        &&& self.area() <= MAX_TILES as int
        &&& self.tiles@.len() == self.area()
        &&& self.revealed_tiles@.len() == self.area()
        &&& self.visible_tiles@.len() == self.area()
        &&& self.blocked@.len() == self.area()
        &&& self.view_blocked@.len() == self.area()
    }

    /// The row-major index of coordinate (x, y).
    pub open spec fn xy_idx_spec(self, x: int, y: int) -> int {
        y * self.width as int + x
    }

    /// Whether (x, y) lies on the grid.
    pub open spec fn in_bounds(self, x: int, y: int) -> bool {
        0 <= x < self.width as int && 0 <= y < self.height as int
    }

    /// Converts a pre-validated coordinate to its row-major index.
    /// Callers must establish bounds first: an out-of-range coordinate is
    /// rejected at verification time rather than silently mapped to an index.
    pub fn xy_idx(&self, x: i32, y: i32) -> (idx: usize)
        requires
            self.wf(),
            self.in_bounds(x as int, y as int),
        ensures
            idx as int == self.xy_idx_spec(x as int, y as int),
            idx < self.tiles@.len(),
    {
        proof {
            lemma_xy_idx_in_range(self.width as int, self.height as int, x as int, y as int);
        }
        (y * self.width + x) as usize
    }

    /// Recovers the coordinate of a row-major index; the inverse of `xy_idx`.
    pub fn idx_xy(&self, idx: usize) -> (p: (i32, i32))
        requires
            self.wf(),
            idx < self.tiles@.len(),
        ensures
            self.in_bounds(p.0 as int, p.1 as int),
            self.xy_idx_spec(p.0 as int, p.1 as int) == idx as int,
    {
        proof {
            lemma_idx_xy_in_range(self.width as int, self.height as int, idx as int);
        }
        let x: i32 = (idx as i32) % self.width;
        let y: i32 = (idx as i32) / self.width;
        (x, y)
    }

    /// A fresh map of the given size: every tile a wall, nothing revealed,
    /// visible or blocked.
    pub fn new(new_depth: i32, width: i32, height: i32, name: &str) -> (map: GridMap)
        requires
            1 <= width,
            1 <= height,
            width as int * height as int <= MAX_TILES as int,
        ensures
            map.wf(),
            map.width == width,
            map.height == height,
            map.depth == new_depth,
            map.name@ == name@,
            forall|i: int| 0 <= i < map.tiles@.len() ==> map.tiles@[i] == TileType::Wall,
            forall|i: int| 0 <= i < map.area() ==> map.revealed_tiles@[i] == false,
            forall|i: int| 0 <= i < map.area() ==> map.visible_tiles@[i] == false,
    {
        let count: usize = (width * height) as usize;
        GridMap {
            tiles: filled_vec(count, TileType::Wall),
            width,
            height,
            revealed_tiles: filled_vec(count, false),
            visible_tiles: filled_vec(count, false),
            blocked: filled_vec(count, false),
            view_blocked: filled_vec(count, false),
            depth: new_depth,
            name: name.to_string(),
        }
    }

    /// Rebuilds the blocked-tile bitset from the tile types: a tile blocks
    /// movement exactly when it is not walkable.  Any previously cached
    /// spatial information in the bitset is overwritten.
    pub fn populate_blocked(&mut self)
        requires
            old(self).wf(),
        ensures
            final(self).wf(),
            final(self).tiles@ == old(self).tiles@,
            final(self).width == old(self).width,
            final(self).height == old(self).height,
            final(self).depth == old(self).depth,
            final(self).name@ == old(self).name@,
            final(self).revealed_tiles@ == old(self).revealed_tiles@,
            final(self).visible_tiles@ == old(self).visible_tiles@,
            final(self).view_blocked@ == old(self).view_blocked@,
            final(self).blocked@.len() == old(self).blocked@.len(),
            forall|i: int|
                0 <= i < final(self).blocked@.len() ==> final(self).blocked@[i]
                    == !final(self).tiles@[i].is_walkable_spec(),
    {
        let mut i: usize = 0;
        let n: usize = self.tiles.len();
        while i < n
            invariant
                self.wf(),
                n == self.tiles@.len(),
                i <= n,
                self.tiles@ == old(self).tiles@,
                self.width == old(self).width,
                self.height == old(self).height,
                self.depth == old(self).depth,
                self.name@ == old(self).name@,
                self.revealed_tiles@ == old(self).revealed_tiles@,
                self.visible_tiles@ == old(self).visible_tiles@,
                self.view_blocked@ == old(self).view_blocked@,
                self.blocked@.len() == old(self).blocked@.len(),
                forall|j: int|
                    0 <= j < i ==> self.blocked@[j] == !self.tiles@[j].is_walkable_spec(),
            decreases n - i,
        {
            let blocks: bool = !self.tiles[i].is_walkable();
            self.blocked.set(i, blocks);
            i = i + 1;
        }
    }

    /// An exact structural copy, suitable for the snapshot history.
    pub fn clone_map(&self) -> (r: GridMap)
        ensures
            same_map(r, *self),
    {
        GridMap {
            tiles: clone_tiles(&self.tiles),
            width: self.width,
            height: self.height,
            revealed_tiles: clone_bools(&self.revealed_tiles),
            visible_tiles: clone_bools(&self.visible_tiles),
            blocked: clone_bools(&self.blocked),
            view_blocked: clone_bools(&self.view_blocked),
            depth: self.depth,
            name: clone_string(&self.name),
        }
    }
}

/// Applies a computed field of view to the grid's flags: every tile
/// becomes invisible except the given points, which are marked visible,
/// and every newly seen tile is remembered as revealed.  This is the
/// grid-updating kernel of a visibility pass; computing which points are
/// in view belongs to the caller.
pub fn apply_field_of_view(map: &mut GridMap, visible: &Vec<(i32, i32)>)
    requires
        old(map).wf(),
        forall|k: int|
            0 <= k < visible@.len() ==> old(map).in_bounds(
                (#[trigger] visible@[k]).0 as int,
                visible@[k].1 as int,
            ),
    ensures
        final(map).wf(),
        final(map).tiles@ == old(map).tiles@,
        final(map).width == old(map).width,
        final(map).height == old(map).height,
        final(map).depth == old(map).depth,
        final(map).name@ == old(map).name@,
        final(map).blocked@ == old(map).blocked@,
        final(map).view_blocked@ == old(map).view_blocked@,
        forall|i: int|
            0 <= i < final(map).visible_tiles@.len() ==> ((#[trigger] final(map).visible_tiles@[i])
                <==> exists|k: int|
                0 <= k < visible@.len() && (#[trigger] visible@[k]).1 as int * (old(map).width as int) + visible@[k].0 as int == i),
        forall|i: int|
            0 <= i < final(map).revealed_tiles@.len() ==> ((#[trigger] final(map).revealed_tiles@[i]) <==> old(map).revealed_tiles@[i] || exists|k: int|
                0 <= k < visible@.len() && (#[trigger] visible@[k]).1 as int * (old(map).width as int) + visible@[k].0 as int == i),
{
    let n: usize = map.visible_tiles.len();
    let mut i: usize = 0;
    while i < n
        invariant
            map.wf(),
            n == map.visible_tiles@.len(),
            i <= n,
            map.tiles@ == old(map).tiles@,
            map.width == old(map).width,
            map.height == old(map).height,
            map.depth == old(map).depth,
            map.name@ == old(map).name@,
            map.blocked@ == old(map).blocked@,
            map.view_blocked@ == old(map).view_blocked@,
            map.revealed_tiles@ == old(map).revealed_tiles@,
            forall|j: int| 0 <= j < i ==> !(#[trigger] map.visible_tiles@[j]),
        decreases n - i,
    {
        map.visible_tiles.set(i, false);
        i = i + 1;
    }
    let m: usize = visible.len();
    let mut j: usize = 0;
    while j < m
        invariant
            map.wf(),
            m == visible@.len(),
            j <= m,
            map.tiles@ == old(map).tiles@,
            map.width == old(map).width,
            map.height == old(map).height,
            map.depth == old(map).depth,
            map.name@ == old(map).name@,
            map.blocked@ == old(map).blocked@,
            map.view_blocked@ == old(map).view_blocked@,
            forall|k: int|
                0 <= k < visible@.len() ==> map.in_bounds(
                    (#[trigger] visible@[k]).0 as int,
                    visible@[k].1 as int,
                ),
            forall|i2: int|
                0 <= i2 < map.visible_tiles@.len() ==> ((#[trigger] map.visible_tiles@[i2])
                    <==> exists|k: int|
                    0 <= k < j && (#[trigger] visible@[k]).1 as int * (map.width as int)
                        + visible@[k].0 as int == i2),
            forall|i2: int|
                0 <= i2 < map.revealed_tiles@.len() ==> ((#[trigger] map.revealed_tiles@[i2])
                    <==> old(map).revealed_tiles@[i2] || exists|k: int|
                    0 <= k < j && (#[trigger] visible@[k]).1 as int * (map.width as int)
                        + visible@[k].0 as int == i2),
        decreases m - j,
    {
        let p: (i32, i32) = visible[j];
        let idx: usize = map.xy_idx(p.0, p.1);
        let ghost vis0 = map.visible_tiles@;
        let ghost rev0 = map.revealed_tiles@;
        map.visible_tiles.set(idx, true);
        map.revealed_tiles.set(idx, true);
        proof {
            let wi = map.width as int;
            assert forall|i2: int| 0 <= i2 < map.visible_tiles@.len() implies ((
            #[trigger] map.visible_tiles@[i2]) <==> exists|k: int|
                0 <= k < j + 1 && (#[trigger] visible@[k]).1 as int * wi + visible@[k].0 as int
                    == i2) by {
                if i2 == idx as int {
                    assert(visible@[j as int].1 as int * wi + visible@[j as int].0 as int == i2);
                } else {
                    if map.visible_tiles@[i2] {
                        assert(vis0[i2]);
                        let k = choose|k: int|
                            0 <= k < j && (#[trigger] visible@[k]).1 as int * wi
                                + visible@[k].0 as int == i2;
                        assert(0 <= k < j + 1 && visible@[k].1 as int * wi + visible@[k].0 as int
                            == i2);
                    } else {
                        if exists|k: int|
                            0 <= k < j + 1 && (#[trigger] visible@[k]).1 as int * wi
                                + visible@[k].0 as int == i2 {
                            let k = choose|k: int|
                                0 <= k < j + 1 && (#[trigger] visible@[k]).1 as int * wi
                                    + visible@[k].0 as int == i2;
                            assert(k != j);
                            assert(vis0[i2]);
                            assert(false);
                        }
                    }
                }
            }
            assert forall|i2: int| 0 <= i2 < map.revealed_tiles@.len() implies ((
            #[trigger] map.revealed_tiles@[i2]) <==> old(map).revealed_tiles@[i2] || exists|k: int|
                0 <= k < j + 1 && (#[trigger] visible@[k]).1 as int * wi + visible@[k].0 as int
                    == i2) by {
                if i2 == idx as int {
                    assert(visible@[j as int].1 as int * wi + visible@[j as int].0 as int == i2);
                } else {
                    if map.revealed_tiles@[i2] {
                        assert(rev0[i2]);
                        if !old(map).revealed_tiles@[i2] {
                            let k = choose|k: int|
                                0 <= k < j && (#[trigger] visible@[k]).1 as int * wi
                                    + visible@[k].0 as int == i2;
                            assert(0 <= k < j + 1 && visible@[k].1 as int * wi
                                + visible@[k].0 as int == i2);
                        }
                    } else {
                        if exists|k: int|
                            0 <= k < j + 1 && (#[trigger] visible@[k]).1 as int * wi
                                + visible@[k].0 as int == i2 {
                            let k = choose|k: int|
                                0 <= k < j + 1 && (#[trigger] visible@[k]).1 as int * wi
                                    + visible@[k].0 as int == i2;
                            assert(k != j);
                            assert(rev0[i2]);
                            assert(false);
                        }
                    }
                }
            }
        }
        j = j + 1;
    }
}

/// Field-for-field equality of two maps, stated over their views.
pub open spec fn same_map(a: GridMap, b: GridMap) -> bool {
    &&& a.tiles@ == b.tiles@
    &&& a.width == b.width
    &&& a.height == b.height
    &&& a.revealed_tiles@ == b.revealed_tiles@
    &&& a.visible_tiles@ == b.visible_tiles@
    &&& a.blocked@ == b.blocked@
    &&& a.view_blocked@ == b.view_blocked@
    &&& a.depth == b.depth
    &&& a.name@ == b.name@
}

/// An in-range coordinate maps into the grid: the index lands in
/// `[0, width * height)`.
pub proof fn lemma_xy_idx_in_range(w: int, h: int, x: int, y: int)
    by (nonlinear_arith)
    requires
        1 <= w,
        1 <= h,
        0 <= x < w,
        0 <= y < h,
    ensures
        0 <= y * w + x < w * h,
{
}

/// An in-range index decomposes into an in-range coordinate, and converting
/// that coordinate back yields the original index: the conversion is a
/// bijection between `[0, w) x [0, h)` and `[0, w * h)`.
pub proof fn lemma_idx_xy_in_range(w: int, h: int, idx: int)
    requires
        1 <= w,
        1 <= h,
        0 <= idx < w * h,
    ensures
        0 <= idx % w < w,
        0 <= idx / w < h,
        (idx / w) * w + (idx % w) == idx,
{
    assert(0 <= idx % w < w && 0 <= idx / w < h && (idx / w) * w + (idx % w) == idx)
        by (nonlinear_arith)
        requires
            1 <= w,
            1 <= h,
            0 <= idx < w * h,
    ;
}

/// Composing the two conversions recovers the original coordinate: no two
/// in-range coordinates share an index, and no index is produced for an
/// out-of-range coordinate (`xy_idx` refuses those outright).
pub proof fn lemma_xy_idx_roundtrip(w: int, h: int, x: int, y: int)
    requires
        1 <= w,
        1 <= h,
        0 <= x < w,
        0 <= y < h,
    ensures
        (y * w + x) % w == x,
        (y * w + x) / w == y,
{
    lemma_xy_idx_in_range(w, h, x, y);
    lemma_fundamental_div_mod_converse(y * w + x, w, y, x);
}

/// A vector of `n` copies of `x`.
pub fn filled_vec<T: Copy>(n: usize, x: T) -> (v: Vec<T>)
    ensures
        v@.len() == n,
        forall|i: int| 0 <= i < n ==> v@[i] == x,
{
    let mut v: Vec<T> = Vec::new();
    let mut i: usize = 0;
    while i < n
        invariant
            i <= n,
            v@.len() == i,
            forall|j: int| 0 <= j < i ==> v@[j] == x,
        decreases n - i,
    {
        v.push(x);
        i = i + 1;
    }
    v
}

fn clone_tiles(v: &Vec<TileType>) -> (r: Vec<TileType>)
    ensures
        r@ == v@,
{
    let mut r: Vec<TileType> = Vec::new();
    let mut i: usize = 0;
    while i < v.len()
        invariant
            i <= v@.len(),
            r@ == v@.subrange(0, i as int),
        decreases v@.len() - i,
    {
        r.push(v[i]);
        i = i + 1;
    }
    proof {
        assert(r@ == v@.subrange(0, v@.len() as int));
        assert(v@.subrange(0, v@.len() as int) =~= v@);
    }
    r
}

fn clone_bools(v: &Vec<bool>) -> (r: Vec<bool>)
    ensures
        r@ == v@,
{
    let mut r: Vec<bool> = Vec::new();
    let mut i: usize = 0;
    while i < v.len()
        invariant
            i <= v@.len(),
            r@ == v@.subrange(0, i as int),
        decreases v@.len() - i,
    {
        r.push(v[i]);
        i = i + 1;
    }
    proof {
        assert(v@.subrange(0, v@.len() as int) =~= v@);
    }
    r
}

/// A copy of a string with the same characters.
pub fn clone_string(s: &String) -> (r: String)
    ensures
        r@ == s@,
{
    let r: String = s.as_str().to_string();
    r
}

} // verus!
