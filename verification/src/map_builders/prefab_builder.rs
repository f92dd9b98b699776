//! Prefab stamping: overlays a fixed, named rectangular section onto the
//! current map, overwriting tiles and merging the section's declared spawn
//! points into the spawn list.

use vstd::prelude::*;

verus! {

use crate::map::{clone_string, TileType};
use crate::map_builders::{BuilderMap, MapBuildError};

/// Where a section sits horizontally on the map.
#[derive(Clone, Copy, PartialEq, Eq, Structural, Debug)]
pub enum HorizontalPlacement {
    Left,
    Center,
    Right,
}

/// Where a section sits vertically on the map.
#[derive(Clone, Copy, PartialEq, Eq, Structural, Debug)]
pub enum VerticalPlacement {
    Top,
    Center,
    Bottom,
}

/// A fixed rectangular layout with declared spawn points, stamped whole
/// onto the map at a placement-derived offset.
pub struct PrefabSection {
    pub tiles: Vec<TileType>,
    pub spawns: Vec<(usize, String)>,
    pub width: i32,
    pub height: i32,
    pub horizontal: HorizontalPlacement,
    pub vertical: VerticalPlacement,
}

impl PrefabSection {
    /// Positive dimensions, a tile for every cell, walls and floors only
    /// (a section never places a staircase), and in-section spawn offsets.
    pub open spec fn wf(self) -> bool {
        &&& 1 <= self.width <= 1000
        &&& 1 <= self.height <= 1000
        &&& self.tiles@.len() == self.width as int * self.height as int
        &&& forall|i: int|
            0 <= i < self.tiles@.len() ==> self.tiles@[i] == TileType::Wall || self.tiles@[i]
                == TileType::Floor
        &&& forall|i: int|
            0 <= i < self.spawns@.len() ==> (self.spawns@[i].0 as int) < self.tiles@.len()
                && self.tiles@[self.spawns@[i].0 as int] == TileType::Floor
    }
}

/// The leftmost map column a section occupies.
pub open spec fn section_x0(p: HorizontalPlacement, w: int, sw: int) -> int {
    match p {
        HorizontalPlacement::Left => 0,
        HorizontalPlacement::Center => (w - sw) / 2,
        HorizontalPlacement::Right => w - sw,
    }
}

/// The topmost map row a section occupies.
pub open spec fn section_y0(p: VerticalPlacement, h: int, sh: int) -> int {
    match p {
        VerticalPlacement::Top => 0,
        VerticalPlacement::Center => (h - sh) / 2,
        VerticalPlacement::Bottom => h - sh,
    }
}

/// Whether map index `gi` lies inside the stamped rectangle.
pub open spec fn in_section(w: int, x0: int, y0: int, sw: int, sh: int, gi: int) -> bool {
    &&& x0 <= gi % w < x0 + sw
    &&& y0 <= gi / w < y0 + sh
}

/// The map index that section cell `si` lands on.
pub open spec fn section_gidx(w: int, x0: int, y0: int, sw: int, si: int) -> int {
    (y0 + si / sw) * w + (x0 + si % sw)
}

/// Section cell `si` lands inside the stamped rectangle, and its map index
/// decomposes back to the expected coordinate.
proof fn lemma_section_gidx(w: int, h: int, x0: int, y0: int, sw: int, sh: int, si: int)
    requires
        1 <= w,
        1 <= h,
        1 <= sw,
        1 <= sh,
        0 <= x0,
        0 <= y0,
        x0 + sw <= w,
        y0 + sh <= h,
        0 <= si < sw * sh,
    ensures
        0 <= si % sw < sw,
        0 <= si / sw < sh,
        0 <= section_gidx(w, x0, y0, sw, si) < w * h,
        section_gidx(w, x0, y0, sw, si) % w == x0 + si % sw,
        section_gidx(w, x0, y0, sw, si) / w == y0 + si / sw,
        in_section(w, x0, y0, sw, sh, section_gidx(w, x0, y0, sw, si)),
{
    assert(0 <= si % sw < sw && 0 <= si / sw < sh) by (nonlinear_arith)
        requires
            1 <= sw,
            1 <= sh,
            0 <= si < sw * sh,
    ;
    let gx = x0 + si % sw;
    let gy = y0 + si / sw;
    crate::map::lemma_xy_idx_in_range(w, h, gx, gy);
    crate::map::lemma_xy_idx_roundtrip(w, h, gx, gy);
}

/// Stamps the section over the map at its placement-derived offset:
/// every tile under the rectangle is overwritten with the section's tile,
/// every tile outside is untouched, and each declared spawn point is
/// appended to the spawn list at its absolute tile index.  Fails, leaving
/// the context untouched, exactly when the section does not fit.
pub fn prefab_sectional(data: &mut BuilderMap, section: &PrefabSection) -> (r: Result<
    (),
    MapBuildError,
>)
    requires
        old(data).wf(),
        section.wf(),
    ensures
        final(data).wf(),
        final(data).starting_position == old(data).starting_position,
        final(data).rooms == old(data).rooms,
        final(data).corridors == old(data).corridors,
        final(data).history@ == old(data).history@,
        final(data).width == old(data).width,
        final(data).height == old(data).height,
        final(data).show_snapshots == old(data).show_snapshots,
        final(data).map.depth == old(data).map.depth,
        final(data).map.name@ == old(data).map.name@,
        final(data).map.width == old(data).map.width,
        final(data).map.height == old(data).map.height,
        r is Err <==> section.width > old(data).width || section.height > old(data).height,
        r is Err ==> r == Result::<(), MapBuildError>::Err(MapBuildError::SectionTooLarge) && final(data).map == old(data).map && final(data).spawn_list@ == old(data).spawn_list@,
        r is Ok ==> {
            let w = old(data).width as int;
            let h = old(data).height as int;
            let sw = section.width as int;
            let sh = section.height as int;
            let x0 = section_x0(section.horizontal, w, sw);
            let y0 = section_y0(section.vertical, h, sh);
            &&& forall|gi: int|
                0 <= gi < final(data).map.tiles@.len() && in_section(w, x0, y0, sw, sh, gi)
                    ==> final(data).map.tiles@[gi] == section.tiles@[(gi / w - y0) * sw + (gi % w
                    - x0)]
            &&& forall|gi: int|
                0 <= gi < final(data).map.tiles@.len() && !in_section(w, x0, y0, sw, sh, gi)
                    ==> final(data).map.tiles@[gi] == old(data).map.tiles@[gi]
            &&& final(data).spawn_list@.len() == old(data).spawn_list@.len()
                + section.spawns@.len()
            &&& forall|i: int|
                0 <= i < old(data).spawn_list@.len() ==> final(data).spawn_list@[i] == old(data).spawn_list@[i]
            &&& forall|i: int|
                0 <= i < section.spawns@.len() ==> {
                    let e = final(data).spawn_list@[old(data).spawn_list@.len() + i];
                    (e.0 as int) == section_gidx(
                        w,
                        x0,
                        y0,
                        sw,
                        (#[trigger] section.spawns@[i]).0 as int,
                    ) && e.1@ == section.spawns@[i].1@
                }
        },
        r is Ok ==> forall|gi: int|
            0 <= gi < final(data).map.tiles@.len() && final(data).map.tiles@[gi]
                == TileType::DownStairs ==> old(data).map.tiles@[gi] == TileType::DownStairs,
{
    if section.width > data.width || section.height > data.height {
        return Err(MapBuildError::SectionTooLarge);
    }
    let w: i32 = data.width;
    let h: i32 = data.height;
    let sw: i32 = section.width;
    let sh: i32 = section.height;
    let x0: i32 = match section.horizontal {
        HorizontalPlacement::Left => 0,
        HorizontalPlacement::Center => (w - sw) / 2,
        HorizontalPlacement::Right => w - sw,
    };
    let y0: i32 = match section.vertical {
        VerticalPlacement::Top => 0,
        VerticalPlacement::Center => (h - sh) / 2,
        VerticalPlacement::Bottom => h - sh,
    };
    let ghost gx0: int = section_x0(section.horizontal, w as int, sw as int);
    let ghost gy0: int = section_y0(section.vertical, h as int, sh as int);
    assert(x0 as int == gx0 && y0 as int == gy0);
    assert(0 <= gx0 && gx0 + sw <= w && 0 <= gy0 && gy0 + sh <= h);
    proof {
        assert(w as int <= 16_000_000 && h as int <= 16_000_000) by (nonlinear_arith)
            requires
                1 <= w,
                1 <= h,
                w as int * h as int <= 16_000_000,
        ;
    }
    proof {
        assert(1 <= sw as int * sh as int <= 1000000) by (nonlinear_arith)
            requires
                1 <= sw <= 1000,
                1 <= sh <= 1000,
        ;
    }
    let count: usize = (sw * sh) as usize;
    let mut si: usize = 0;
    while si < count
        invariant
            data.wf(),
            data.width == old(data).width,
            data.height == old(data).height,
            data.map.depth == old(data).map.depth,
            data.map.name@ == old(data).map.name@,
            data.show_snapshots == old(data).show_snapshots,
            data.history@ == old(data).history@,
            data.starting_position == old(data).starting_position,
            data.rooms == old(data).rooms,
            data.corridors == old(data).corridors,
            data.spawn_list@ == old(data).spawn_list@,
            section.wf(),
            w == data.width,
            h == data.height,
            sw == section.width,
            sh == section.height,
            x0 as int == gx0,
            y0 as int == gy0,
            0 <= gx0,
            gx0 + sw <= w,
            0 <= gy0,
            gy0 + sh <= h,
            w as int <= 16_000_000,
            h as int <= 16_000_000,
            si <= count,
            count == sw as int * sh as int,
            forall|k: int|
                0 <= k < si ==> data.map.tiles@[section_gidx(w as int, gx0, gy0, sw as int, k)]
                    == section.tiles@[k],
            forall|gi: int|
                0 <= gi < data.map.tiles@.len() && !in_section(
                    w as int,
                    gx0,
                    gy0,
                    sw as int,
                    sh as int,
                    gi,
                ) ==> data.map.tiles@[gi] == old(data).map.tiles@[gi],
            forall|gi: int|
                0 <= gi < data.map.tiles@.len() && data.map.tiles@[gi] == TileType::DownStairs
                    ==> old(data).map.tiles@[gi] == TileType::DownStairs,
        decreases count - si,
    {
        proof {
            assert(1 <= sw as int * sh as int <= 1000000) by (nonlinear_arith)
                requires
                    1 <= sw <= 1000,
                    1 <= sh <= 1000,
            ;
            lemma_section_gidx(
                w as int,
                h as int,
                gx0,
                gy0,
                sw as int,
                sh as int,
                si as int,
            );
        }
        let tx: i32 = (si as i32) % sw;
        let ty: i32 = (si as i32) / sw;
        let gidx: usize = data.map.xy_idx(x0 + tx, y0 + ty);
        let tile: TileType = section.tiles[si];
        data.map.tiles.set(gidx, tile);
        proof {
            assert forall|k: int| 0 <= k < si + 1 implies data.map.tiles@[section_gidx(
                w as int,
                gx0,
                gy0,
                sw as int,
                k,
            )] == section.tiles@[k] by {
                lemma_section_gidx(w as int, h as int, gx0, gy0, sw as int, sh as int, k);
                if k < si {
                    if section_gidx(w as int, gx0, gy0, sw as int, k) == gidx as int {
                        assert(k % (sw as int) == si as int % (sw as int));
                        assert(k / (sw as int) == si as int / (sw as int));
                        crate::map::lemma_idx_xy_in_range(sw as int, sh as int, k);
                        crate::map::lemma_idx_xy_in_range(sw as int, sh as int, si as int);
                        assert(k == k / (sw as int) * (sw as int) + k % (sw as int));
                        assert(false);
                    }
                }
            }
        }
        si = si + 1;
    }
    let ghost spawn_base: int = data.spawn_list@.len() as int;
    let mut j: usize = 0;
    let nspawns: usize = section.spawns.len();
    while j < nspawns
        invariant
            data.wf(),
            data.width == old(data).width,
            data.height == old(data).height,
            data.map.depth == old(data).map.depth,
            data.map.name@ == old(data).map.name@,
            data.show_snapshots == old(data).show_snapshots,
            data.history@ == old(data).history@,
            data.starting_position == old(data).starting_position,
            data.rooms == old(data).rooms,
            data.corridors == old(data).corridors,
            section.wf(),
            w == data.width,
            h == data.height,
            sw == section.width,
            sh == section.height,
            x0 as int == gx0,
            y0 as int == gy0,
            0 <= gx0,
            gx0 + sw <= w,
            0 <= gy0,
            gy0 + sh <= h,
            w as int <= 16_000_000,
            h as int <= 16_000_000,
            j <= nspawns,
            nspawns == section.spawns@.len(),
            spawn_base == old(data).spawn_list@.len(),
            data.spawn_list@.len() == spawn_base + j,
            forall|i: int| 0 <= i < spawn_base ==> data.spawn_list@[i] == old(data).spawn_list@[i],
            forall|i: int|
                0 <= i < j ==> {
                    let e = data.spawn_list@[spawn_base + i];
                    (e.0 as int) == section_gidx(
                        w as int,
                        gx0,
                        gy0,
                        sw as int,
                        (#[trigger] section.spawns@[i]).0 as int,
                    ) && e.1@ == section.spawns@[i].1@
                },
            forall|k: int|
                0 <= k < sw as int * sh as int ==> data.map.tiles@[section_gidx(
                    w as int,
                    gx0,
                    gy0,
                    sw as int,
                    k,
                )] == section.tiles@[k],
            forall|gi: int|
                0 <= gi < data.map.tiles@.len() && !in_section(
                    w as int,
                    gx0,
                    gy0,
                    sw as int,
                    sh as int,
                    gi,
                ) ==> data.map.tiles@[gi] == old(data).map.tiles@[gi],
            forall|gi: int|
                0 <= gi < data.map.tiles@.len() && data.map.tiles@[gi] == TileType::DownStairs
                    ==> old(data).map.tiles@[gi] == TileType::DownStairs,
        decreases nspawns - j,
    {
        let off: usize = section.spawns[j].0;
        proof {
            assert(1 <= sw as int * sh as int <= 1000000) by (nonlinear_arith)
                requires
                    1 <= sw <= 1000,
                    1 <= sh <= 1000,
            ;
            lemma_section_gidx(
                w as int,
                h as int,
                gx0,
                gy0,
                sw as int,
                sh as int,
                off as int,
            );
        }
        let tx: i32 = (off as i32) % sw;
        let ty: i32 = (off as i32) / sw;
        let gidx: usize = data.map.xy_idx(x0 + tx, y0 + ty);
        let tag: String = clone_string(&section.spawns[j].1);
        data.spawn_list.push((gidx, tag));
        j = j + 1;
    }
    proof {
        assert forall|gi: int|
            0 <= gi < data.map.tiles@.len() && in_section(
                w as int,
                gx0,
                gy0,
                sw as int,
                sh as int,
                gi,
            ) implies data.map.tiles@[gi] == section.tiles@[(gi / (w as int) - gy0) * (sw as int) + (
        gi % (w as int) - gx0)] by {
            let k = (gi / (w as int) - gy0) * (sw as int) + (gi % (w as int) - gx0);
            crate::map::lemma_idx_xy_in_range(w as int, h as int, gi);
            crate::map::lemma_xy_idx_in_range(
                sw as int,
                sh as int,
                gi % (w as int) - gx0,
                gi / (w as int) - gy0,
            );
            crate::map::lemma_xy_idx_roundtrip(
                sw as int,
                sh as int,
                gi % (w as int) - gx0,
                gi / (w as int) - gy0,
            );
            assert(section_gidx(w as int, gx0, gy0, sw as int, k) == gi);
        }
    }
    Ok(())
}

/// Decodes an ASCII layout into a section, one string per drawing row so
/// the layout on screen is the layout in the data: `#` is a wall, anything
/// else a floor, with a few letters declaring a spawn on their floor tile
/// (`g` a goblin, `o` an orc, `!` a health potion).  Cells beyond a row's
/// characters, and rows beyond the drawing, are walls.
fn decode_rows(
    rows: &[&str],
    width: i32,
    height: i32,
    horizontal: HorizontalPlacement,
    vertical: VerticalPlacement,
) -> (s: PrefabSection)
    requires
        1 <= width <= 1000,
        1 <= height <= 1000,
    ensures
        s.wf(),
        s.width == width,
        s.height == height,
        s.horizontal == horizontal,
        s.vertical == vertical,
{
    proof {
        assert(1 <= width as int * height as int <= 1000000) by (nonlinear_arith)
            requires
                1 <= width <= 1000,
                1 <= height <= 1000,
        ;
    }
    let w: usize = width as usize;
    let h: usize = height as usize;
    let mut tiles: Vec<TileType> = Vec::new();
    let mut spawns: Vec<(usize, String)> = Vec::new();
    let mut r: usize = 0;
    while r < h
        invariant
            w == width as int,
            h == height as int,
            1 <= width <= 1000,
            1 <= height <= 1000,
            r <= h,
            tiles@.len() == r * w,
            forall|k: int|
                0 <= k < tiles@.len() ==> tiles@[k] == TileType::Wall || tiles@[k]
                    == TileType::Floor,
            forall|k: int|
                0 <= k < spawns@.len() ==> (spawns@[k].0 as int) < tiles@.len()
                    && tiles@[spawns@[k].0 as int] == TileType::Floor,
        decreases h - r,
    {
        let mut c: usize = 0;
        while c < w
            invariant
                w == width as int,
                h == height as int,
                1 <= width <= 1000,
                1 <= height <= 1000,
                r < h,
                c <= w,
                tiles@.len() == r * w + c,
                forall|k: int|
                    0 <= k < tiles@.len() ==> tiles@[k] == TileType::Wall || tiles@[k]
                        == TileType::Floor,
                forall|k: int|
                    0 <= k < spawns@.len() ==> (spawns@[k].0 as int) < tiles@.len()
                        && tiles@[spawns@[k].0 as int] == TileType::Floor,
            decreases w - c,
        {
            let mut b: u8 = 35;
            if r < rows.len() {
                let row: &str = rows[r];
                let rb: &[u8] = row.as_bytes();
                if c < rb.len() {
                    b = rb[c];
                }
            }
            if b == 103 {
                spawns.push((tiles.len(), "Goblin".to_string()));
            } else if b == 111 {
                spawns.push((tiles.len(), "Orc".to_string()));
            } else if b == 33 {
                spawns.push((tiles.len(), "Health Potion".to_string()));
            }
            let tile: TileType = if b == 35 {
                TileType::Wall
            } else {
                TileType::Floor
            };
            tiles.push(tile);
            c = c + 1;
        }
        proof {
            assert((r as int + 1) * (w as int) == r as int * w as int + w as int)
                by (nonlinear_arith);
        }
        r = r + 1;
    }
    proof {
        assert((h as int) * (w as int) == width as int * height as int) by (nonlinear_arith)
            requires
                w == width as int,
                h == height as int,
        ;
    }
    PrefabSection { tiles, spawns, width, height, horizontal, vertical }
}

/// A fortified vault hugging the map's right edge, with garrisoned rooms
/// and gaps on its left wall so the cave can reach it.
pub fn underground_fort() -> (s: PrefabSection)
    ensures
        s.wf(),
        s.width == 12,
        s.height == 13,
        s.horizontal == HorizontalPlacement::Right,
        s.vertical == VerticalPlacement::Center,
{
    decode_rows(
        &[
            "############",
            "#     #    #",
            "# ### # ## #",
            "# #     #  #",
            "  # ### #g #",
            "  # #o# ## #",
            "  # #   #  #",
            "# ### # ####",
            "#     #    #",
            "# ##### ## #",
            "#       #g #",
            "#  ##   #! #",
            "############",
        ],
        12,
        13,
        HorizontalPlacement::Right,
        VerticalPlacement::Center,
    )
}

/// A guarded descent chamber stamped over the map's centre.
pub fn drow_entry() -> (s: PrefabSection)
    ensures
        s.wf(),
        s.width == 12,
        s.height == 10,
        s.horizontal == HorizontalPlacement::Center,
        s.vertical == VerticalPlacement::Center,
{
    decode_rows(
        &[
            "############",
            "#          #",
            "# ######## #",
            "  #  g   #  ",
            "# #  o   # #",
            "# #      # #",
            "  #  g   #  ",
            "# ######## #",
            "#          #",
            "############",
        ],
        12,
        10,
        HorizontalPlacement::Center,
        VerticalPlacement::Center,
    )
}

} // verus!
