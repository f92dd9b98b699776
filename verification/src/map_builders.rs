//! The map-builder pipeline: a chain of generation steps that transform a
//! shared map-building context in a fixed order.
//!
//! A chain owns one starting step (which must lay down the initial floor
//! layout) and any number of follow-up steps.  `build` runs them strictly in
//! the order supplied at construction, snapshots the grid after every step
//! when visualization is requested, and hands back the finished map, the
//! spawn list and the snapshot history through read-only accessors.

pub mod area_points;
pub mod cellular_automata;
pub mod cull_unreachable;
pub mod mushroom_forest;
pub mod prefab_builder;
pub mod rooms_corridors;
pub mod voronoi_spawning;
pub mod waveform_collapse;

use vstd::prelude::*;

verus! {

use crate::map::{same_map, GridMap, TileType, MAX_TILES};
use crate::rect::Rect;
use crate::rng::RandomSource;
use crate::spawn_table::{SpawnTable, SpawnTableEntry};
use crate::map_builders::area_points::{XEnd, XStart, YEnd, YStart};
use crate::map_builders::prefab_builder::PrefabSection;

/// A grid coordinate.
#[derive(Clone, Copy, PartialEq, Eq, Structural, Debug)]
pub struct Position {
    pub x: i32,
    pub y: i32,
}

/// A generation failure: a step ran without the state it needs.  These are
/// configuration-class errors — a chain composed so that a step misses its
/// precondition — and are surfaced immediately rather than retried.
#[derive(Clone, Copy, PartialEq, Eq, Structural, Debug)]
pub enum MapBuildError {
    /// `build` was invoked on a chain with no starting step.
    MissingStartingStep,
    /// A start- or end-selection step found no walkable tile to choose.
    NoFloorTiles,
    /// The culling step ran before any starting position was set.
    MissingStartingPosition,
    /// A prefab section does not fit inside the map.
    SectionTooLarge,
}

/// No tile of the grid is a staircase.
pub open spec fn no_stairs(tiles: Seq<TileType>) -> bool {
    forall|i: int| 0 <= i < tiles.len() ==> tiles[i] != TileType::DownStairs
}

/// Every tile is a wall or a floor.
pub open spec fn only_wall_floor(tiles: Seq<TileType>) -> bool {
    forall|i: int|
        0 <= i < tiles.len() ==> tiles[i] == TileType::Wall || tiles[i] == TileType::Floor
}

/// Index `k` holds the one and only staircase.
pub open spec fn single_stairs_at(tiles: Seq<TileType>, k: int) -> bool {
    &&& 0 <= k < tiles.len()
    &&& tiles[k] == TileType::DownStairs
    &&& forall|j: int| 0 <= j < tiles.len() && j != k ==> tiles[j] != TileType::DownStairs
}

/// Exactly one tile of the grid is a staircase.
pub open spec fn exactly_one_stairs(tiles: Seq<TileType>) -> bool {
    exists|k: int| single_stairs_at(tiles, k)
}

/// Stamping a staircase onto a stairless grid leaves exactly one exit.
pub proof fn lemma_single_exit(t1: Seq<TileType>, k: int, t2: Seq<TileType>)
    requires
        no_stairs(t1),
        0 <= k < t1.len(),
        t2 == t1.update(k, TileType::DownStairs),
    ensures
        exactly_one_stairs(t2),
{
    assert(single_stairs_at(t2, k));
}

/// The shared generation context: the one mutably-borrowed object every
/// step of a chain reads and writes.
pub struct BuilderMap {
    pub spawn_list: Vec<(usize, String)>,
    pub map: GridMap,
    pub starting_position: Option<Position>,
    pub rooms: Option<Vec<Rect>>,
    pub corridors: Option<Vec<Vec<usize>>>,
    pub history: Vec<GridMap>,
    pub width: i32,
    pub height: i32,
    pub show_snapshots: bool,
}

impl BuilderMap {
    /// The grid is well-formed, the cached dimensions agree with it, and
    /// every queued spawn sits on a valid tile.
    pub open spec fn wf(self) -> bool {
        &&& self.map.wf()
        &&& self.width == self.map.width
        &&& self.height == self.map.height
        &&& forall|i: int|
            0 <= i < self.spawn_list@.len() ==> (self.spawn_list@[i].0 as int)
                < self.map.tiles@.len()
        &&& (match self.starting_position {
            Option::Some(p) => 0 <= p.x < self.map.width && 0 <= p.y < self.map.height,
            Option::None => true,
        })
    }

    /// The starting position, as a tile index, when one is set.
    pub open spec fn start_idx(self) -> int {
        match self.starting_position {
            Option::Some(p) => p.y as int * self.map.width as int + p.x as int,
            Option::None => -1,
        }
    }

    /// Appends a copy of the current grid to the history when visualization
    /// is on; does nothing otherwise.
    pub fn take_snapshot(&mut self)
        ensures
            final(self).spawn_list@ == old(self).spawn_list@,
            final(self).map == old(self).map,
            final(self).starting_position == old(self).starting_position,
            final(self).rooms == old(self).rooms,
            final(self).corridors == old(self).corridors,
            final(self).width == old(self).width,
            final(self).height == old(self).height,
            final(self).show_snapshots == old(self).show_snapshots,
            old(self).show_snapshots ==> {
                &&& final(self).history@.len() == old(self).history@.len() + 1
                &&& forall|i: int|
                    0 <= i < old(self).history@.len() ==> final(self).history@[i] == old(self).history@[i]
                &&& same_map(final(self).history@.last(), final(self).map)
            },
            !old(self).show_snapshots ==> final(self).history@ == old(self).history@,
    {
        if self.show_snapshots {
            let snapshot = self.map.clone_map();
            self.history.push(snapshot);
        }
    }
}

/// One generation step.  Each variant is a self-contained algorithm invoked
/// uniformly by the chain; step-local configuration (targets, retry bounds,
/// the section to stamp) is captured in the variant's fields.
#[allow(inconsistent_fields)]
pub enum BuilderStep {
    /// Noise seeding followed by neighbour-count smoothing; carves caves.
    CellularAutomata,
    /// Rebuilds the map from chunks of itself, constrained by observed
    /// adjacency; falls back to the input map after `retries` failed
    /// collapse attempts.
    WaveformCollapse { retries: i32 },
    /// Picks the walkable tile nearest the named target as the start.
    AreaStartingPosition { x: XStart, y: YStart },
    /// Picks the walkable tile nearest the named target and stamps the
    /// down-staircase there.
    AreaEndingPosition { x: XEnd, y: YEnd },
    /// Walls off every tile not reachable from the starting position.
    CullUnreachable,
    /// Partitions the floor into regions around random seed points and
    /// rolls the spawn table for each region.
    VoronoiSpawning,
    /// Stamps a named rectangular section over part of the map.
    PrefabSectional { section: PrefabSection },
    /// Rejection-sampled rectangular rooms joined by L-shaped corridors;
    /// gives up on a placement after `max_attempts` rejections.
    RoomsAndCorridors { max_attempts: i32 },
}

/// Step-local configuration is itself well-formed.
pub open spec fn step_wf(step: BuilderStep) -> bool {
    match step {
        BuilderStep::PrefabSectional { section } => section.wf(),
        BuilderStep::WaveformCollapse { retries } => 1 <= retries <= 100,
        BuilderStep::RoomsAndCorridors { max_attempts } => 1 <= max_attempts <= 1000,
        _ => true,
    }
}

/// A step that succeeds on any well-formed context: it has no
/// precondition a chain could miss.
pub open spec fn step_infallible(step: BuilderStep) -> bool {
    match step {
        BuilderStep::CellularAutomata => true,
        BuilderStep::WaveformCollapse { .. } => true,
        BuilderStep::VoronoiSpawning => true,
        BuilderStep::RoomsAndCorridors { .. } => true,
        _ => false,
    }
}

/// What one step's successful run guarantees: how the post-state relates
/// to the pre-state and the generator's final state to its initial one,
/// per the step's own contract.  The snapshot history is the chain's
/// business and is deliberately unconstrained here.
pub open spec fn step_rel(
    step: BuilderStep,
    pre: BuilderMap,
    post: BuilderMap,
    s0: u64,
    s1: u64,
    entries: Seq<SpawnTableEntry>,
) -> bool {
    &&& post.wf()
    &&& post.width == pre.width
    &&& post.height == pre.height
    &&& post.map.depth == pre.map.depth
    &&& post.map.name@ == pre.map.name@
    &&& post.show_snapshots == pre.show_snapshots
    &&& match step {
        BuilderStep::CellularAutomata => {
            &&& post.spawn_list@ == pre.spawn_list@
            &&& post.starting_position == pre.starting_position
            &&& post.rooms == pre.rooms
            &&& post.corridors == pre.corridors
            &&& only_wall_floor(post.map.tiles@)
            &&& cellular_automata::border_walls(post.map)
            &&& post.map.tiles@ == cellular_automata::ca_generations(
                cellular_automata::ca_noise(s0, pre.width as int, pre.height as int),
                pre.width as int,
                pre.height as int,
                cellular_automata::SMOOTHING_GENERATIONS as int,
            )
            &&& s1 == crate::rng::roll_state(
                s0,
                cellular_automata::interior_count(
                    pre.width as int,
                    pre.height as int,
                    pre.width as int * pre.height as int,
                ),
            )
        },
        BuilderStep::WaveformCollapse { .. } => {
            &&& post.spawn_list@ == pre.spawn_list@
            &&& post.starting_position == pre.starting_position
            &&& post.rooms == pre.rooms
            &&& post.corridors == pre.corridors
            &&& post.map.tiles@.len() == pre.map.tiles@.len()
            &&& (only_wall_floor(pre.map.tiles@) ==> only_wall_floor(post.map.tiles@))
            &&& (post.map == pre.map || waveform_collapse::restyled_from_chunks(
                post.map.tiles@,
                pre.map.tiles@,
                pre.width as int,
                pre.height as int,
                waveform_collapse::CHUNK_SIZE as int,
            ))
        },
        BuilderStep::AreaStartingPosition { x, y } => {
            &&& post.map == pre.map
            &&& post.spawn_list@ == pre.spawn_list@
            &&& post.rooms == pre.rooms
            &&& post.corridors == pre.corridors
            &&& s1 == s0
            &&& (match post.starting_position {
                Option::Some(p) => area_points::first_closest_walkable(
                    post.map,
                    area_points::x_start_target(x, pre.width as int),
                    area_points::y_start_target(y, pre.height as int),
                    post.start_idx(),
                ) && post.start_idx() == p.y as int * post.map.width as int + p.x as int,
                Option::None => false,
            })
        },
        BuilderStep::AreaEndingPosition { x, y } => {
            &&& post.starting_position == pre.starting_position
            &&& post.spawn_list@ == pre.spawn_list@
            &&& post.rooms == pre.rooms
            &&& post.corridors == pre.corridors
            &&& post.map.width == pre.map.width
            &&& post.map.height == pre.map.height
            &&& s1 == s0
            &&& (exists|k: int|
                {
                    &&& #[trigger] area_points::first_closest_walkable(
                        pre.map,
                        area_points::x_end_target(x, pre.width as int),
                        area_points::y_end_target(y, pre.height as int),
                        k,
                    )
                    &&& post.map.tiles@ == pre.map.tiles@.update(k, TileType::DownStairs)
                })
            &&& (no_stairs(pre.map.tiles@) ==> exactly_one_stairs(post.map.tiles@))
        },
        BuilderStep::CullUnreachable => {
            &&& post.starting_position == pre.starting_position
            &&& post.spawn_list@ == pre.spawn_list@
            &&& post.rooms == pre.rooms
            &&& post.corridors == pre.corridors
            &&& post.map.width == pre.map.width
            &&& post.map.height == pre.map.height
            &&& s1 == s0
            &&& (forall|i: int|
                0 <= i < post.map.tiles@.len() ==> post.map.tiles@[i] == pre.map.tiles@[i]
                    || post.map.tiles@[i] == TileType::Wall)
            &&& (forall|i: int|
                cull_unreachable::walkable_at(post.map.tiles@, i) ==> post.map.tiles@[i]
                    == pre.map.tiles@[i])
            &&& (forall|i: int|
                #[trigger] cull_unreachable::walkable_at(post.map.tiles@, i)
                    ==> cull_unreachable::reachable(
                    post.map.tiles@,
                    pre.map.width as int,
                    pre.map.height as int,
                    pre.start_idx(),
                    i,
                ))
            &&& (forall|i: int|
                #[trigger] cull_unreachable::reachable(
                    pre.map.tiles@,
                    pre.map.width as int,
                    pre.map.height as int,
                    pre.start_idx(),
                    i,
                ) ==> 0 <= i < post.map.tiles@.len() && post.map.tiles@[i] == pre.map.tiles@[i])
        },
        BuilderStep::VoronoiSpawning => {
            &&& post.map == pre.map
            &&& post.starting_position == pre.starting_position
            &&& post.rooms == pre.rooms
            &&& post.corridors == pre.corridors
            &&& ((pre.width < 3 || pre.height < 3) ==> post.spawn_list@ == pre.spawn_list@ && s1
                == s0)
            &&& ((pre.width >= 3 && pre.height >= 3) ==> exists|
                regions: Seq<usize>,
                seeds: Seq<(i32, i32)>,
            |
                #[trigger] voronoi_spawning::voronoi_outcome(
                    regions,
                    seeds,
                    pre.map.tiles@,
                    pre.width as int,
                    pre.height as int,
                    pre.map.depth as int,
                    entries,
                    s0,
                    pre.spawn_list@,
                    post.spawn_list@,
                    s1,
                ))
            &&& post.spawn_list@.len() >= pre.spawn_list@.len()
            &&& post.spawn_list@.len() <= pre.spawn_list@.len() + (
            voronoi_spawning::VORONOI_SEED_COUNT as int) * voronoi_spawning::region_spawn_cap(
                pre.map.depth as int,
            )
            &&& (forall|i: int|
                0 <= i < pre.spawn_list@.len() ==> post.spawn_list@[i] == pre.spawn_list@[i])
            &&& (forall|i: int|
                pre.spawn_list@.len() <= i < post.spawn_list@.len()
                    ==> cull_unreachable::walkable_at(
                    post.map.tiles@,
                    (#[trigger] post.spawn_list@[i]).0 as int,
                ))
        },
        BuilderStep::PrefabSectional { section } => {
            let w = pre.width as int;
            let h = pre.height as int;
            let sw = section.width as int;
            let sh = section.height as int;
            let x0 = prefab_builder::section_x0(section.horizontal, w, sw);
            let y0 = prefab_builder::section_y0(section.vertical, h, sh);
            &&& post.starting_position == pre.starting_position
            &&& post.rooms == pre.rooms
            &&& post.corridors == pre.corridors
            &&& section.width <= pre.width
            &&& section.height <= pre.height
            &&& (forall|gi: int|
                0 <= gi < post.map.tiles@.len() && prefab_builder::in_section(w, x0, y0, sw, sh, gi)
                    ==> post.map.tiles@[gi] == section.tiles@[(gi / w - y0) * sw + (gi % w - x0)])
            &&& (forall|gi: int|
                0 <= gi < post.map.tiles@.len() && !prefab_builder::in_section(
                    w,
                    x0,
                    y0,
                    sw,
                    sh,
                    gi,
                ) ==> post.map.tiles@[gi] == pre.map.tiles@[gi])
            &&& (forall|gi: int|
                0 <= gi < post.map.tiles@.len() && post.map.tiles@[gi] == TileType::DownStairs
                    ==> pre.map.tiles@[gi] == TileType::DownStairs)
            &&& post.spawn_list@.len() == pre.spawn_list@.len() + section.spawns@.len()
            &&& (forall|i: int|
                0 <= i < pre.spawn_list@.len() ==> post.spawn_list@[i] == pre.spawn_list@[i])
            &&& post.map.tiles@.len() == pre.map.tiles@.len()
        },
        BuilderStep::RoomsAndCorridors { max_attempts } => {
            &&& post.spawn_list@ == pre.spawn_list@
            &&& post.starting_position == pre.starting_position
            &&& ({
                let result = rooms_corridors::rooms_result(
                    pre.map.tiles@,
                    pre.width as int,
                    pre.height as int,
                    s0,
                    max_attempts as int,
                );
                &&& post.map.tiles@ == result.0
                &&& (match post.rooms {
                    Option::Some(rs) => rs@ == result.1,
                    Option::None => false,
                })
                &&& (match post.corridors {
                    Option::Some(cs) => cs@.len() == result.2.len() && forall|a: int|
                        0 <= a < cs@.len() ==> (#[trigger] cs@[a])@ == result.2[a],
                    Option::None => false,
                })
                &&& s1 == result.3
            })
            &&& (forall|i: int|
                0 <= i < post.map.tiles@.len() ==> (#[trigger] post.map.tiles@[i])
                    == pre.map.tiles@[i] || post.map.tiles@[i] == TileType::Floor)
            &&& (match post.rooms {
                Option::Some(rs) => {
                    &&& rooms_corridors::rooms_disjoint(rs@)
                    &&& (forall|k: int|
                        0 <= k < rs@.len() ==> rooms_corridors::room_in_bounds(
                            #[trigger] rs@[k],
                            pre.width as int,
                            pre.height as int,
                        ))
                    &&& (forall|k: int|
                        0 <= k < rs@.len() ==> rooms_corridors::room_floors(
                            post.map.tiles@,
                            pre.width as int,
                            #[trigger] rs@[k],
                        ))
                },
                Option::None => false,
            })
            &&& (match post.corridors {
                Option::Some(cs) => forall|a: int|
                    0 <= a < cs@.len() ==> rooms_corridors::corridor_floors(
                        post.map.tiles@,
                        (#[trigger] cs@[a])@,
                    ),
                Option::None => false,
            })
        },
    }
}

/// The steps of a chain ran in order: some sequence of intermediate
/// contexts and generator states links the initial state to the final one,
/// each link by the corresponding step's contract.
pub open spec fn chain_steps_rel(
    steps: Seq<BuilderStep>,
    pre: BuilderMap,
    post: BuilderMap,
    s0: u64,
    s1: u64,
    entries: Seq<SpawnTableEntry>,
) -> bool
    decreases steps.len(),
{
    if steps.len() == 0 {
        post == pre && s1 == s0
    } else {
        exists|mid: BuilderMap, smid: u64|
            #[trigger] step_rel(steps[0], pre, mid, s0, smid, entries) && chain_steps_rel(
                steps.drop_first(),
                mid,
                post,
                smid,
                s1,
                entries,
            )
    }
}

/// A chain extends on the right: running one more step after a completed
/// chain gives a completed chain.
pub proof fn lemma_chain_steps_extend(
    steps: Seq<BuilderStep>,
    st: BuilderStep,
    pre: BuilderMap,
    mid: BuilderMap,
    post: BuilderMap,
    s0: u64,
    smid: u64,
    s1: u64,
    entries: Seq<SpawnTableEntry>,
)
    requires
        chain_steps_rel(steps, pre, mid, s0, smid, entries),
        step_rel(st, mid, post, smid, s1, entries),
    ensures
        chain_steps_rel(steps.push(st), pre, post, s0, s1, entries),
    decreases steps.len(),
{
    if steps.len() == 0 {
        assert(pre == mid && smid == s0);
        assert(steps.push(st)[0] == st);
        assert(steps.push(st).drop_first() =~= Seq::<BuilderStep>::empty());
        assert(chain_steps_rel(steps.push(st).drop_first(), post, post, s1, s1, entries));
        assert(step_rel(steps.push(st)[0], pre, post, s0, s1, entries));
    } else {
        let (m1, sm1) = choose|m1: BuilderMap, sm1: u64|
            #[trigger] step_rel(steps[0], pre, m1, s0, sm1, entries) && chain_steps_rel(
                steps.drop_first(),
                m1,
                mid,
                sm1,
                smid,
                entries,
            );
        lemma_chain_steps_extend(steps.drop_first(), st, m1, mid, post, sm1, smid, s1, entries);
        assert(steps.push(st)[0] == steps[0]);
        assert(steps.push(st).drop_first() =~= steps.drop_first().push(st));
        assert(step_rel(steps.push(st)[0], pre, m1, s0, sm1, entries) && chain_steps_rel(
            steps.push(st).drop_first(),
            m1,
            post,
            sm1,
            s1,
            entries,
        ));
    }
}

/// The ordered pipeline: one mandatory starting step, any number of
/// follow-up steps, and the shared context they transform.
pub struct BuilderChain {
    pub starter: Option<BuilderStep>,
    pub builders: Vec<BuilderStep>,
    pub build_data: BuilderMap,
}

impl BuilderChain {
    pub open spec fn wf(self) -> bool {
        &&& self.build_data.wf()
        &&& (match self.starter {
            Option::Some(s) => step_wf(s),
            Option::None => true,
        })
        &&& forall|i: int| 0 <= i < self.builders@.len() ==> step_wf(#[trigger] self.builders@[i])
    }

    pub open spec fn has_starter(self) -> bool {
        self.starter is Some
    }

    pub open spec fn step_count(self) -> int {
        self.builders@.len() as int
    }

    /// A fresh chain for one level: an all-wall grid of the given size, no
    /// steps, nothing built yet.
    pub fn new(new_depth: i32, width: i32, height: i32, name: &str, show_snapshots: bool) -> (chain: BuilderChain)
        requires
            1 <= width,
            1 <= height,
            width as int * height as int <= MAX_TILES as int,
        ensures
            chain.wf(),
            !chain.has_starter(),
            chain.step_count() == 0,
            chain.build_data.width == width,
            chain.build_data.height == height,
            chain.build_data.map.depth == new_depth,
            chain.build_data.map.name@ == name@,
            chain.build_data.show_snapshots == show_snapshots,
            chain.build_data.history@.len() == 0,
            chain.build_data.spawn_list@.len() == 0,
            chain.build_data.starting_position is None,
    {
        BuilderChain {
            starter: None,
            builders: Vec::new(),
            build_data: BuilderMap {
                spawn_list: Vec::new(),
                map: GridMap::new(new_depth, width, height, name),
                starting_position: None,
                rooms: None,
                corridors: None,
                history: Vec::new(),
                width,
                height,
                show_snapshots,
            },
        }
    }

    /// Sets the mandatory first step.  A chain takes exactly one starting
    /// step; setting a second is a composition mistake and is ruled out at
    /// the call site.
    pub fn start_with(&mut self, step: BuilderStep)
        requires
            !old(self).has_starter(),
            old(self).wf(),
            step_wf(step),
        ensures
            final(self).wf(),
            final(self).has_starter(),
            final(self).builders@ == old(self).builders@,
            final(self).build_data == old(self).build_data,
            final(self).starter == Option::Some(step),
    {
        self.starter = Some(step);
    }

    /// Appends a follow-up step; steps run in the order they were appended.
    pub fn with(&mut self, step: BuilderStep)
        requires
            old(self).wf(),
            step_wf(step),
        ensures
            final(self).wf(),
            final(self).has_starter() == old(self).has_starter(),
            final(self).builders@ == old(self).builders@.push(step),
            final(self).build_data == old(self).build_data,
            final(self).starter == old(self).starter,
    {
        self.builders.push(step);
    }

    /// Runs the starting step, then every appended step in order, mutating
    /// the shared context and snapshotting after each step when
    /// visualization is on.  A chain is consumed once: it is built on a
    /// fresh context and never reused for a second level.
    pub fn build(&mut self, rng: &mut RandomSource, table: &SpawnTable) -> (r: Result<
        (),
        MapBuildError,
    >)
        requires
            old(self).wf(),
            old(self).build_data.history@.len() == 0,
            table.wf(),
        ensures
            final(self).wf(),
            final(self).starter == old(self).starter,
            final(self).builders@ == old(self).builders@,
            final(self).build_data.width == old(self).build_data.width,
            final(self).build_data.height == old(self).build_data.height,
            final(self).build_data.map.depth == old(self).build_data.map.depth,
            final(self).build_data.map.name@ == old(self).build_data.map.name@,
            final(self).build_data.show_snapshots == old(self).build_data.show_snapshots,
            r == Result::<(), MapBuildError>::Err(MapBuildError::MissingStartingStep) <==> !old(self).has_starter(),
            r is Ok ==> old(self).build_data.show_snapshots ==> {
                &&& final(self).build_data.history@.len() == 1 + old(self).builders@.len()
                &&& same_map(final(self).build_data.history@.last(), final(self).build_data.map)
            },
            r is Ok ==> !old(self).build_data.show_snapshots ==> final(self).build_data.history@.len() == 0,
            final(self).build_data.history@.len() <= 1 + old(self).builders@.len(),
            (match old(self).starter {
                Option::Some(s) => step_infallible(s),
                Option::None => false,
            }) && (forall|i: int|
                0 <= i < old(self).builders@.len() ==> step_infallible(
                    #[trigger] old(self).builders@[i],
                )) ==> r is Ok,
            r is Ok ==> (match old(self).starter {
                Option::Some(st) => exists|mid: BuilderMap, smid: u64|
                    #[trigger] step_rel(st, old(self).build_data, mid, old(rng)@, smid, table.entries@)
                        && chain_steps_rel(
                        old(self).builders@,
                        mid,
                        final(self).build_data,
                        smid,
                        final(rng)@,
                        table.entries@,
                    ),
                Option::None => false,
            }),
    {
        if self.starter.is_none() {
            return Err(MapBuildError::MissingStartingStep);
        }
        let r = match &self.starter {
            Some(step) => dispatch_step(step, &mut self.build_data, rng, table),
            None => Ok(()),
        };
        if let Err(e) = r {
            return Err(e);
        }
        self.build_data.take_snapshot();
        let ghost base = self.build_data;
        let ghost sbase = rng@;
        proof {
            assert(old(self).builders@.take(0) =~= Seq::<BuilderStep>::empty());
        }
        let n: usize = self.builders.len();
        let mut i: usize = 0;
        while i < n
            invariant
                i <= n,
                n == self.builders@.len(),
                self.wf(),
                table.wf(),
                self.starter == old(self).starter,
                self.starter is Some,
                self.builders@ == old(self).builders@,
                self.build_data.width == old(self).build_data.width,
                self.build_data.height == old(self).build_data.height,
                self.build_data.map.depth == old(self).build_data.map.depth,
                self.build_data.map.name@ == old(self).build_data.map.name@,
                self.build_data.show_snapshots == old(self).build_data.show_snapshots,
                self.build_data.show_snapshots ==> {
                    &&& self.build_data.history@.len() == 1 + i
                    &&& same_map(self.build_data.history@.last(), self.build_data.map)
                },
                !self.build_data.show_snapshots ==> self.build_data.history@.len() == 0,
                (match old(self).starter {
                    Option::Some(st) => step_rel(
                        st,
                        old(self).build_data,
                        base,
                        old(rng)@,
                        sbase,
                        table.entries@,
                    ),
                    Option::None => false,
                }),
                chain_steps_rel(
                    old(self).builders@.take(i as int),
                    base,
                    self.build_data,
                    sbase,
                    rng@,
                    table.entries@,
                ),
            decreases n - i,
        {
            let ghost pre_i = self.build_data;
            let ghost si = rng@;
            let step_result = dispatch_step(&self.builders[i], &mut self.build_data, rng, table);
            if let Err(e) = step_result {
                return Err(e);
            }
            self.build_data.take_snapshot();
            proof {
                assert(step_rel(
                    old(self).builders@[i as int],
                    pre_i,
                    self.build_data,
                    si,
                    rng@,
                    table.entries@,
                ));
                lemma_chain_steps_extend(
                    old(self).builders@.take(i as int),
                    old(self).builders@[i as int],
                    base,
                    pre_i,
                    self.build_data,
                    sbase,
                    si,
                    rng@,
                    table.entries@,
                );
                assert(old(self).builders@.take(i as int).push(old(self).builders@[i as int])
                    =~= old(self).builders@.take(i as int + 1));
            }
            i = i + 1;
        }
        proof {
            assert(old(self).builders@.take(n as int) =~= old(self).builders@);
        }
        Ok(())
    }

    /// A copy of the finished grid.
    pub fn get_map(&self) -> (m: GridMap)
        ensures
            same_map(m, self.build_data.map),
    {
        self.build_data.map.clone_map()
    }

    /// The starting position the chain selected, if any step set one.
    pub fn get_starting_position(&self) -> (p: Option<Position>)
        ensures
            p == self.build_data.starting_position,
    {
        self.build_data.starting_position
    }

    /// The (tile index, spawn tag) pairs the chain accumulated; the caller
    /// resolves each tag against its entity templates.
    pub fn get_spawn_list(&self) -> (s: &Vec<(usize, String)>)
        ensures
            s@ == self.build_data.spawn_list@,
    {
        &self.build_data.spawn_list
    }

    /// The recorded snapshots, one per executed step, for step-by-step
    /// playback.  Empty when visualization was off.
    pub fn get_history(&self) -> (h: &Vec<GridMap>)
        ensures
            h@ == self.build_data.history@,
    {
        &self.build_data.history
    }
}

/// Maps a requested depth to a concrete builder chain: the mushroom-grove
/// depths get the cave pipeline, every other depth a room-and-corridor
/// dungeon with the same start, cull, exit and spawn steps.
pub fn level_builder(new_depth: i32, width: i32, height: i32, show_visualizer: bool) -> (chain:
    BuilderChain)
    requires
        1 <= width,
        1 <= height,
        width as int * height as int <= MAX_TILES as int,
    ensures
        chain.wf(),
        chain.has_starter(),
        chain.build_data.width == width,
        chain.build_data.height == height,
        chain.build_data.map.depth == new_depth,
        chain.build_data.show_snapshots == show_visualizer,
        chain.build_data.history@.len() == 0,
        chain.build_data.spawn_list@.len() == 0,
        chain.build_data.starting_position is None,
        new_depth == 2 ==> {
            &&& chain.starter == Option::Some(BuilderStep::CellularAutomata)
            &&& chain.builders@.len() == 7
            &&& chain.builders@[0] == (BuilderStep::WaveformCollapse { retries: 5 })
            &&& chain.builders@[1] matches BuilderStep::PrefabSectional { section }
                && section.width == 12 && section.height == 13
            &&& crate::map_builders::mushroom_forest::grove_tail(chain.builders@, 2)
            &&& chain.build_data.map.name@ == "Into The Mushroom Grove"@
        },
        new_depth == 3 ==> {
            &&& chain.starter == Option::Some(BuilderStep::CellularAutomata)
            &&& chain.builders@.len() == 6
            &&& chain.builders@[0] == (BuilderStep::WaveformCollapse { retries: 5 })
            &&& crate::map_builders::mushroom_forest::grove_tail(chain.builders@, 1)
            &&& chain.build_data.map.name@ == "Into The Mushroom Grove"@
        },
        new_depth == 4 ==> {
            &&& chain.starter == Option::Some(BuilderStep::CellularAutomata)
            &&& chain.builders@.len() == 7
            &&& chain.builders@[0] == (BuilderStep::WaveformCollapse { retries: 5 })
            &&& chain.builders@[1] matches BuilderStep::PrefabSectional { section }
                && section.width == 12 && section.height == 10
            &&& crate::map_builders::mushroom_forest::grove_tail(chain.builders@, 2)
            &&& chain.build_data.map.name@ == "Into The Mushroom Grove"@
        },
        !(new_depth == 2 || new_depth == 3 || new_depth == 4) ==> {
            &&& chain.starter == Option::Some(
                BuilderStep::RoomsAndCorridors { max_attempts: 240 },
            )
            &&& chain.builders@.len() == 4
            &&& chain.builders@[0] == (BuilderStep::AreaStartingPosition {
                x: XStart::Center,
                y: YStart::Center,
            })
            &&& chain.builders@[1] == BuilderStep::CullUnreachable
            &&& chain.builders@[2] == (BuilderStep::AreaEndingPosition {
                x: XEnd::Right,
                y: YEnd::Center,
            })
            &&& chain.builders@[3] == BuilderStep::VoronoiSpawning
            &&& chain.build_data.map.name@ == "New Map"@
        },
{
    if new_depth == 2 {
        crate::map_builders::mushroom_forest::mushroom_entrance(
            new_depth,
            width,
            height,
            show_visualizer,
        )
    } else if new_depth == 3 {
        crate::map_builders::mushroom_forest::mushroom_builder(
            new_depth,
            width,
            height,
            show_visualizer,
        )
    } else if new_depth == 4 {
        crate::map_builders::mushroom_forest::mushroom_exit(
            new_depth,
            width,
            height,
            show_visualizer,
        )
    } else {
        let mut chain = BuilderChain::new(new_depth, width, height, "New Map", show_visualizer);
        chain.start_with(BuilderStep::RoomsAndCorridors { max_attempts: 240 });
        chain.with(BuilderStep::AreaStartingPosition { x: XStart::Center, y: YStart::Center });
        chain.with(BuilderStep::CullUnreachable);
        chain.with(BuilderStep::AreaEndingPosition { x: XEnd::Right, y: YEnd::Center });
        chain.with(BuilderStep::VoronoiSpawning);
        chain
    }
}

/// Runs one step against the shared context.  Whatever the step does, the
/// grid keeps its dimensions, depth and name, the snapshot history is left
/// to the chain, and a failure names the precondition the step missed.
fn dispatch_step(
    step: &BuilderStep,
    data: &mut BuilderMap,
    rng: &mut RandomSource,
    table: &SpawnTable,
) -> (r: Result<(), MapBuildError>)
    requires
        old(data).wf(),
        step_wf(*step),
        table.wf(),
    ensures
        final(data).wf(),
        final(data).width == old(data).width,
        final(data).height == old(data).height,
        final(data).map.depth == old(data).map.depth,
        final(data).map.name@ == old(data).map.name@,
        final(data).show_snapshots == old(data).show_snapshots,
        final(data).history@ == old(data).history@,
        r != Result::<(), MapBuildError>::Err(MapBuildError::MissingStartingStep),
        step_infallible(*step) ==> r is Ok,
        r is Ok ==> step_rel(*step, *old(data), *final(data), old(rng)@, final(rng)@, table.entries@),
{
    match step {
        BuilderStep::CellularAutomata => {
            cellular_automata::cellular_automata(data, rng);
            Ok(())
        },
        BuilderStep::WaveformCollapse { retries } => {
            let _restyled: bool = waveform_collapse::waveform_collapse(data, rng, *retries);
            Ok(())
        },
        BuilderStep::AreaStartingPosition { x, y } => {
            area_points::area_starting_position(data, *x, *y)
        },
        BuilderStep::AreaEndingPosition { x, y } => {
            area_points::area_ending_position(data, *x, *y)
        },
        BuilderStep::CullUnreachable => cull_unreachable::cull_unreachable(data),
        BuilderStep::VoronoiSpawning => {
            voronoi_spawning::voronoi_spawning(data, rng, table);
            Ok(())
        },
        BuilderStep::PrefabSectional { section } => {
            prefab_builder::prefab_sectional(data, section)
        },
        BuilderStep::RoomsAndCorridors { max_attempts } => {
            rooms_corridors::rooms_and_corridors(data, rng, *max_attempts);
            Ok(())
        },
    }
}

} // verus!
