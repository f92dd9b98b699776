//! Chain factories for the mushroom-grove levels: cellular-automata caves
//! restyled by wave-function collapse, culled for reachability, spawned by
//! Voronoi regions.  The entrance and exit variants stamp a prefab section
//! before the culling pass, so anything the stamp disconnects is walled
//! off, and the exit is placed after culling so nothing can overwrite the
//! single staircase.

use vstd::prelude::*;

verus! {

use crate::map::{GridMap, MAX_TILES, TileType};
use crate::spawn_table::SpawnTableEntry;
use crate::map_builders::area_points::{XEnd, XStart, YEnd, YStart};
use crate::map_builders::cull_unreachable::{
    lemma_reachable_from_any,
    lemma_reachable_same_walkable,
    reachable,
    walkable_at,
};
use crate::map_builders::prefab_builder::{
    drow_entry,
    underground_fort,
    HorizontalPlacement,
    PrefabSection,
    VerticalPlacement,
};
use crate::map_builders::{
    chain_steps_rel,
    exactly_one_stairs,
    no_stairs,
    only_wall_floor,
    step_rel,
    BuilderChain,
    BuilderMap,
    BuilderStep,
};

/// The steps every grove chain runs after its carving (and stamping)
/// steps: pick a provisional centre start, cull, then start on the right,
/// exit on the left, and scatter spawns.
pub open spec fn grove_tail(steps: Seq<BuilderStep>, at: int) -> bool {
    &&& steps[at] == (BuilderStep::AreaStartingPosition { x: XStart::Center, y: YStart::Center })
    &&& steps[at + 1] == BuilderStep::CullUnreachable
    &&& steps[at + 2] == (BuilderStep::AreaStartingPosition { x: XStart::Right, y: YStart::Center })
    &&& steps[at + 3] == (BuilderStep::AreaEndingPosition { x: XEnd::Left, y: YEnd::Center })
    &&& steps[at + 4] == BuilderStep::VoronoiSpawning
}

/// What the common grove tail guarantees once it has run: starting from a
/// well-formed, stairless grid, the finished context holds a starting
/// position on a walkable tile, exactly one staircase, and every walkable
/// tile reachable from that starting position.
pub proof fn lemma_grove_tail_invariants(
    steps: Seq<BuilderStep>,
    pre: BuilderMap,
    post: BuilderMap,
    s0: u64,
    s1: u64,
    entries: Seq<SpawnTableEntry>,
)
    requires
        steps.len() == 5,
        grove_tail(steps, 0),
        chain_steps_rel(steps, pre, post, s0, s1, entries),
        pre.wf(),
        no_stairs(pre.map.tiles@),
    ensures
        post.starting_position is Some,
        0 <= post.start_idx() < post.map.tiles@.len(),
        walkable_at(post.map.tiles@, post.start_idx()),
        exactly_one_stairs(post.map.tiles@),
        exists|culled: GridMap|
            {
                &&& culled.width == post.map.width
                &&& culled.height == post.map.height
                &&& culled.tiles@.len() == post.map.tiles@.len()
                &&& (forall|i: int|
                    0 <= i < culled.tiles@.len() ==> (#[trigger] culled.tiles@[i]).is_walkable_spec()
                        == post.map.tiles@[i].is_walkable_spec())
                &&& #[trigger] crate::map_builders::area_points::first_closest_walkable(
                    culled,
                    crate::map_builders::area_points::x_start_target(
                        XStart::Right,
                        post.width as int,
                    ),
                    crate::map_builders::area_points::y_start_target(
                        YStart::Center,
                        post.height as int,
                    ),
                    post.start_idx(),
                )
            },
        forall|i: int|
            #[trigger] walkable_at(post.map.tiles@, i) ==> reachable(
                post.map.tiles@,
                post.map.width as int,
                post.map.height as int,
                post.start_idx(),
                i,
            ),
{
    let (m1, t1) = choose|m1: BuilderMap, t1: u64|
        #[trigger] step_rel(steps[0], pre, m1, s0, t1, entries) && chain_steps_rel(
            steps.drop_first(),
            m1,
            post,
            t1,
            s1,
            entries,
        );
    let steps1 = steps.drop_first();
    let (m2, t2) = choose|m2: BuilderMap, t2: u64|
        #[trigger] step_rel(steps1[0], m1, m2, t1, t2, entries) && chain_steps_rel(
            steps1.drop_first(),
            m2,
            post,
            t2,
            s1,
            entries,
        );
    let steps2 = steps1.drop_first();
    let (m3, t3) = choose|m3: BuilderMap, t3: u64|
        #[trigger] step_rel(steps2[0], m2, m3, t2, t3, entries) && chain_steps_rel(
            steps2.drop_first(),
            m3,
            post,
            t3,
            s1,
            entries,
        );
    let steps3 = steps2.drop_first();
    let (m4, t4) = choose|m4: BuilderMap, t4: u64|
        #[trigger] step_rel(steps3[0], m3, m4, t3, t4, entries) && chain_steps_rel(
            steps3.drop_first(),
            m4,
            post,
            t4,
            s1,
            entries,
        );
    let steps4 = steps3.drop_first();
    let (m5, t5) = choose|m5: BuilderMap, t5: u64|
        #[trigger] step_rel(steps4[0], m4, m5, t4, t5, entries) && chain_steps_rel(
            steps4.drop_first(),
            m5,
            post,
            t5,
            s1,
            entries,
        );
    assert(steps4.drop_first().len() == 0);
    assert(post == m5);
    // names for the states: m1 holds a provisional centre start, m2 is
    // culled, m3 starts on the right, m4 carries the staircase, m5 == post
    let wi = m1.map.width as int;
    let hi = m1.map.height as int;
    let c = m1.start_idx();
    assert(no_stairs(m1.map.tiles@));
    assert(no_stairs(m2.map.tiles@));
    assert(m3.map == m2.map);
    let sidx = m3.start_idx();
    assert(walkable_at(m3.map.tiles@, sidx));
    let k = choose|k: int|
        {
            &&& #[trigger] crate::map_builders::area_points::first_closest_walkable(
                m3.map,
                crate::map_builders::area_points::x_end_target(XEnd::Left, m3.width as int),
                crate::map_builders::area_points::y_end_target(YEnd::Center, m3.height as int),
                k,
            )
            &&& m4.map.tiles@ == m3.map.tiles@.update(k, TileType::DownStairs)
        };
    assert(exactly_one_stairs(m4.map.tiles@));
    assert(post.map == m4.map);
    // the staircase keeps its tile walkable, so walkability is pointwise
    // unchanged from the culled grid to the finished one
    assert forall|i: int| 0 <= i < m2.map.tiles@.len() implies (#[trigger] m4.map.tiles@[i]).is_walkable_spec()
        == m2.map.tiles@[i].is_walkable_spec() by {
        if i == k {
            assert(m3.map.tiles@[k].is_walkable_spec());
        }
    }
    assert(walkable_at(m4.map.tiles@, sidx));
    assert forall|i: int| #[trigger] walkable_at(m4.map.tiles@, i) implies reachable(
        m4.map.tiles@,
        wi,
        hi,
        c,
        i,
    ) by {
        assert(walkable_at(m2.map.tiles@, i));
        assert(reachable(m2.map.tiles@, wi, hi, c, i));
        lemma_reachable_same_walkable(m2.map.tiles@, m4.map.tiles@, wi, hi, c, i);
    }
    lemma_reachable_from_any(m4.map.tiles@, wi, hi, c, sidx);
    assert(post.start_idx() == sidx);
    assert(crate::map_builders::area_points::first_closest_walkable(
        m3.map,
        crate::map_builders::area_points::x_start_target(XStart::Right, post.width as int),
        crate::map_builders::area_points::y_start_target(YStart::Center, post.height as int),
        post.start_idx(),
    ));
}

/// Invariants of a completed grove chain: after the carving starter ran
/// and then a grove step list (restyle, an optional prefab stamp, then the
/// start/cull/exit/spawn tail), the finished context holds a starting
/// position on a walkable tile, exactly one staircase, and every walkable
/// tile reachable from that starting position — the shape `build` certifies
/// for the chains the grove factories produce.
pub proof fn lemma_grove_build_invariants(
    pre0: BuilderMap,
    steps: Seq<BuilderStep>,
    post: BuilderMap,
    s0: u64,
    s1: u64,
    entries: Seq<SpawnTableEntry>,
)
    requires
        exists|mid: BuilderMap, smid: u64|
            #[trigger] step_rel(BuilderStep::CellularAutomata, pre0, mid, s0, smid, entries)
                && chain_steps_rel(steps, mid, post, smid, s1, entries),
        (steps.len() == 6 && (steps[0] matches BuilderStep::WaveformCollapse { .. })
            && grove_tail(steps, 1)) || (steps.len() == 7 && (steps[0]
            matches BuilderStep::WaveformCollapse { .. }) && (steps[1]
            matches BuilderStep::PrefabSectional { .. }) && grove_tail(steps, 2)),
    ensures
        post.starting_position is Some,
        0 <= post.start_idx() < post.map.tiles@.len(),
        walkable_at(post.map.tiles@, post.start_idx()),
        exactly_one_stairs(post.map.tiles@),
        exists|culled: GridMap|
            {
                &&& culled.width == post.map.width
                &&& culled.height == post.map.height
                &&& culled.tiles@.len() == post.map.tiles@.len()
                &&& (forall|i: int|
                    0 <= i < culled.tiles@.len() ==> (#[trigger] culled.tiles@[i]).is_walkable_spec()
                        == post.map.tiles@[i].is_walkable_spec())
                &&& #[trigger] crate::map_builders::area_points::first_closest_walkable(
                    culled,
                    crate::map_builders::area_points::x_start_target(
                        XStart::Right,
                        post.width as int,
                    ),
                    crate::map_builders::area_points::y_start_target(
                        YStart::Center,
                        post.height as int,
                    ),
                    post.start_idx(),
                )
            },
        forall|i: int|
            #[trigger] walkable_at(post.map.tiles@, i) ==> reachable(
                post.map.tiles@,
                post.map.width as int,
                post.map.height as int,
                post.start_idx(),
                i,
            ),
{
    let (mid, smid) = choose|mid: BuilderMap, smid: u64|
        #[trigger] step_rel(BuilderStep::CellularAutomata, pre0, mid, s0, smid, entries)
            && chain_steps_rel(steps, mid, post, smid, s1, entries);
    assert(only_wall_floor(mid.map.tiles@));
    let (m1, t1) = choose|m1: BuilderMap, t1: u64|
        #[trigger] step_rel(steps[0], mid, m1, smid, t1, entries) && chain_steps_rel(
            steps.drop_first(),
            m1,
            post,
            t1,
            s1,
            entries,
        );
    assert(only_wall_floor(m1.map.tiles@));
    assert(no_stairs(m1.map.tiles@));
    if steps.len() == 6 {
        let tail = steps.drop_first();
        assert(grove_tail(tail, 0));
        lemma_grove_tail_invariants(tail, m1, post, t1, s1, entries);
    } else {
        let steps1 = steps.drop_first();
        let (m2, t2) = choose|m2: BuilderMap, t2: u64|
            #[trigger] step_rel(steps1[0], m1, m2, t1, t2, entries) && chain_steps_rel(
                steps1.drop_first(),
                m2,
                post,
                t2,
                s1,
                entries,
            );
        assert(steps1[0] == steps[1]);
        assert(no_stairs(m2.map.tiles@));
        let tail = steps1.drop_first();
        assert(grove_tail(tail, 0));
        lemma_grove_tail_invariants(tail, m2, post, t2, s1, entries);
    }
}

/// A middle grove level: cave carving, wave-function-collapse restyling,
/// then the common start/cull/exit/spawn tail.
pub fn mushroom_builder(new_depth: i32, width: i32, height: i32, show_visualizer: bool) -> (chain: BuilderChain)
    requires
        1 <= width,
        1 <= height,
        width as int * height as int <= MAX_TILES as int,
    ensures
        chain.wf(),
        chain.has_starter(),
        chain.starter == Option::Some(BuilderStep::CellularAutomata),
        chain.builders@.len() == 6,
        chain.builders@[0] == (BuilderStep::WaveformCollapse { retries: 5 }),
        grove_tail(chain.builders@, 1),
        chain.build_data.width == width,
        chain.build_data.height == height,
        chain.build_data.map.depth == new_depth,
        chain.build_data.map.name@ == "Into The Mushroom Grove"@,
        chain.build_data.show_snapshots == show_visualizer,
        chain.build_data.history@.len() == 0,
        chain.build_data.spawn_list@.len() == 0,
        chain.build_data.starting_position is None,
{
    let mut chain = BuilderChain::new(
        new_depth,
        width,
        height,
        "Into The Mushroom Grove",
        show_visualizer,
    );
    chain.start_with(BuilderStep::CellularAutomata);
    chain.with(BuilderStep::WaveformCollapse { retries: 5 });
    chain.with(BuilderStep::AreaStartingPosition { x: XStart::Center, y: YStart::Center });
    chain.with(BuilderStep::CullUnreachable);
    chain.with(BuilderStep::AreaStartingPosition { x: XStart::Right, y: YStart::Center });
    chain.with(BuilderStep::AreaEndingPosition { x: XEnd::Left, y: YEnd::Center });
    chain.with(BuilderStep::VoronoiSpawning);
    chain
}

/// An entrance or exit grove level: carve, restyle, stamp the given
/// section, then the common start/cull/exit/spawn tail.
fn grove_with_section(
    new_depth: i32,
    width: i32,
    height: i32,
    show_visualizer: bool,
    section: PrefabSection,
) -> (chain: BuilderChain)
    requires
        1 <= width,
        1 <= height,
        width as int * height as int <= MAX_TILES as int,
        section.wf(),
    ensures
        chain.wf(),
        chain.has_starter(),
        chain.starter == Option::Some(BuilderStep::CellularAutomata),
        chain.builders@.len() == 7,
        chain.builders@[0] == (BuilderStep::WaveformCollapse { retries: 5 }),
        chain.builders@[1] == (BuilderStep::PrefabSectional { section }),
        grove_tail(chain.builders@, 2),
        chain.build_data.width == width,
        chain.build_data.height == height,
        chain.build_data.map.depth == new_depth,
        chain.build_data.map.name@ == "Into The Mushroom Grove"@,
        chain.build_data.show_snapshots == show_visualizer,
        chain.build_data.history@.len() == 0,
        chain.build_data.spawn_list@.len() == 0,
        chain.build_data.starting_position is None,
{
    let mut chain = BuilderChain::new(
        new_depth,
        width,
        height,
        "Into The Mushroom Grove",
        show_visualizer,
    );
    chain.start_with(BuilderStep::CellularAutomata);
    chain.with(BuilderStep::WaveformCollapse { retries: 5 });
    chain.with(BuilderStep::PrefabSectional { section });
    chain.with(BuilderStep::AreaStartingPosition { x: XStart::Center, y: YStart::Center });
    chain.with(BuilderStep::CullUnreachable);
    chain.with(BuilderStep::AreaStartingPosition { x: XStart::Right, y: YStart::Center });
    chain.with(BuilderStep::AreaEndingPosition { x: XEnd::Left, y: YEnd::Center });
    chain.with(BuilderStep::VoronoiSpawning);
    chain
}

/// The grove's entrance level: the cave chain with the underground fort
/// (12 by 13, against the right edge, vertically centred) stamped before
/// the culling pass.
pub fn mushroom_entrance(new_depth: i32, width: i32, height: i32, show_visualizer: bool) -> (chain: BuilderChain)
    requires
        1 <= width,
        1 <= height,
        width as int * height as int <= MAX_TILES as int,
    ensures
        chain.wf(),
        chain.has_starter(),
        chain.starter == Option::Some(BuilderStep::CellularAutomata),
        chain.builders@.len() == 7,
        chain.builders@[0] == (BuilderStep::WaveformCollapse { retries: 5 }),
        chain.builders@[1] matches BuilderStep::PrefabSectional { section } && section.wf()
            && section.width == 12 && section.height == 13 && section.horizontal
            == HorizontalPlacement::Right && section.vertical == VerticalPlacement::Center,
        grove_tail(chain.builders@, 2),
        chain.build_data.width == width,
        chain.build_data.height == height,
        chain.build_data.map.depth == new_depth,
        chain.build_data.map.name@ == "Into The Mushroom Grove"@,
        chain.build_data.show_snapshots == show_visualizer,
        chain.build_data.history@.len() == 0,
        chain.build_data.spawn_list@.len() == 0,
        chain.build_data.starting_position is None,
{
    grove_with_section(new_depth, width, height, show_visualizer, underground_fort())
}

/// The grove's last level: the cave chain with the guarded descent
/// chamber (12 by 10, over the map's centre) stamped before the culling
/// pass.
pub fn mushroom_exit(new_depth: i32, width: i32, height: i32, show_visualizer: bool) -> (chain: BuilderChain)
    requires
        1 <= width,
        1 <= height,
        width as int * height as int <= MAX_TILES as int,
    ensures
        chain.wf(),
        chain.has_starter(),
        chain.starter == Option::Some(BuilderStep::CellularAutomata),
        chain.builders@.len() == 7,
        chain.builders@[0] == (BuilderStep::WaveformCollapse { retries: 5 }),
        chain.builders@[1] matches BuilderStep::PrefabSectional { section } && section.wf()
            && section.width == 12 && section.height == 10 && section.horizontal
            == HorizontalPlacement::Center && section.vertical == VerticalPlacement::Center,
        grove_tail(chain.builders@, 2),
        chain.build_data.width == width,
        chain.build_data.height == height,
        chain.build_data.map.depth == new_depth,
        chain.build_data.map.name@ == "Into The Mushroom Grove"@,
        chain.build_data.show_snapshots == show_visualizer,
        chain.build_data.history@.len() == 0,
        chain.build_data.spawn_list@.len() == 0,
        chain.build_data.starting_position is None,
{
    grove_with_section(new_depth, width, height, show_visualizer, drow_entry())
}

} // verus!
