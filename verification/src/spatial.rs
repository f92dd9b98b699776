//! The spatial index: a derived acceleration structure holding, per tile,
//! the entities standing on it and whether the tile blocks movement.  It is
//! rebuilt after structural map changes and consulted by movement and
//! visibility queries; entities are identified by plain numeric handles
//! owned by the caller's entity store.

use vstd::prelude::*;

verus! {

use crate::map::{filled_vec, GridMap};

/// The per-tile occupant lists and blocked-tile set.
pub struct SpatialIndex {
    pub blocked_by_map: Vec<bool>,
    pub blocked_by_entity: Vec<bool>,
    pub tile_content: Vec<Vec<(u64, bool)>>,
}

impl SpatialIndex {
    /// All three per-tile vectors cover the same grid.
    pub open spec fn wf(self) -> bool {
        &&& self.blocked_by_map@.len() == self.tile_content@.len()
        &&& self.blocked_by_entity@.len() == self.tile_content@.len()
    }

    /// Number of tiles the index covers.
    pub open spec fn capacity(self) -> int {
        self.tile_content@.len() as int
    }

    /// The occupants recorded on tile `idx`.
    pub open spec fn occupants(self, idx: int) -> Seq<(u64, bool)> {
        self.tile_content@[idx]@
    }

    /// Whether the map itself blocks tile `idx`.
    pub open spec fn map_blocked(self, idx: int) -> bool {
        self.blocked_by_map@[idx]
    }

    /// Whether some recorded entity blocks tile `idx`.
    pub open spec fn entity_blocked(self, idx: int) -> bool {
        self.blocked_by_entity@[idx]
    }

    /// An empty index covering no tiles.
    pub fn new() -> (s: SpatialIndex)
        ensures
            s.wf(),
            s.capacity() == 0,
    {
        SpatialIndex { blocked_by_map: Vec::new(), blocked_by_entity: Vec::new(), tile_content: Vec::new() }
    }

    /// Drops every record and resizes the index for `n` tiles: nothing
    /// blocked, no occupants anywhere.
    pub fn clear(&mut self, n: usize)
        ensures
            final(self).wf(),
            final(self).capacity() == n,
            forall|i: int| 0 <= i < n ==> !final(self).map_blocked(i),
            forall|i: int| 0 <= i < n ==> !final(self).entity_blocked(i),
            forall|i: int| 0 <= i < n ==> final(self).occupants(i).len() == 0,
    {
        self.blocked_by_map = filled_vec(n, false);
        self.blocked_by_entity = filled_vec(n, false);
        let mut content: Vec<Vec<(u64, bool)>> = Vec::new();
        let mut i: usize = 0;
        while i < n
            invariant
                i <= n,
                content@.len() == i,
                forall|k: int| 0 <= k < i ==> (#[trigger] content@[k])@.len() == 0,
            decreases n - i,
        {
            content.push(Vec::new());
            i = i + 1;
        }
        self.tile_content = content;
    }

    /// Rebuilds the map-blocked set from the grid's tile types, clearing
    /// every entity record; cached entries from before a structural map
    /// change are invalidated wholesale.
    pub fn populate_blocked_from_map(&mut self, map: &GridMap)
        requires
            map.wf(),
        ensures
            final(self).wf(),
            final(self).capacity() == map.tiles@.len(),
            forall|i: int|
                0 <= i < map.tiles@.len() ==> final(self).map_blocked(i)
                    == !map.tiles@[i].is_walkable_spec(),
            forall|i: int| 0 <= i < map.tiles@.len() ==> !final(self).entity_blocked(i),
            forall|i: int| 0 <= i < map.tiles@.len() ==> final(self).occupants(i).len() == 0,
    {
        let n: usize = map.tiles.len();
        self.clear(n);
        let mut i: usize = 0;
        while i < n
            invariant
                self.wf(),
                n == map.tiles@.len(),
                self.capacity() == n,
                i <= n,
                forall|k: int|
                    0 <= k < i ==> self.map_blocked(k) == !map.tiles@[k].is_walkable_spec(),
                forall|k: int| i <= k < n ==> !self.map_blocked(k),
                forall|k: int| 0 <= k < n ==> !self.entity_blocked(k),
                forall|k: int| 0 <= k < n ==> self.occupants(k).len() == 0,
            decreases n - i,
        {
            let ghost s0 = *self;
            let blocks: bool = !map.tiles[i].is_walkable();
            self.blocked_by_map.set(i, blocks);
            proof {
                assert(self.blocked_by_map@ == s0.blocked_by_map@.update(i as int, blocks));
                assert forall|k: int|
                    0 <= k < i as int + 1 implies self.map_blocked(k) == !map.tiles@[k].is_walkable_spec() by {
                    if k < i as int {
                        assert(s0.map_blocked(k) == !map.tiles@[k].is_walkable_spec());
                    }
                }
                assert forall|k: int| i as int + 1 <= k < n implies !self.map_blocked(k) by {
                    assert(!s0.map_blocked(k));
                }
                assert(self.blocked_by_entity@ == s0.blocked_by_entity@);
                assert(self.tile_content@ == s0.tile_content@);
                assert forall|k: int| 0 <= k < n implies !self.entity_blocked(k) by {
                    assert(!s0.entity_blocked(k));
                }
                assert forall|k: int| 0 <= k < n implies self.occupants(k).len() == 0 by {
                    assert(s0.occupants(k).len() == 0);
                }
            }
            i = i + 1;
        }
    }

    /// Records entity `id` on tile `idx`; a blocking entity also blocks
    /// the tile.
    pub fn index_entity(&mut self, id: u64, idx: usize, blocks: bool)
        requires
            old(self).wf(),
            (idx as int) < old(self).capacity(),
        ensures
            final(self).wf(),
            final(self).capacity() == old(self).capacity(),
            final(self).occupants(idx as int) == old(self).occupants(idx as int).push(
                (id, blocks),
            ),
            forall|i: int|
                0 <= i < old(self).capacity() && i != idx as int ==> final(self).occupants(i)
                    == old(self).occupants(i),
            forall|i: int|
                0 <= i < old(self).capacity() ==> final(self).map_blocked(i) == old(
                    self,
                ).map_blocked(i),
            final(self).entity_blocked(idx as int) == (old(self).entity_blocked(idx as int)
                || blocks),
            forall|i: int|
                0 <= i < old(self).capacity() && i != idx as int ==> final(self).entity_blocked(i)
                    == old(self).entity_blocked(i),
    {
        let was_blocked: bool = self.blocked_by_entity[idx];
        self.blocked_by_entity.set(idx, was_blocked || blocks);
        let slot: &mut Vec<(u64, bool)> = &mut self.tile_content[idx];
        slot.push((id, blocks));
    }

    /// Whether tile `idx` is blocked, by the map or by an entity.
    pub fn is_blocked(&self, idx: usize) -> (r: bool)
        requires
            self.wf(),
            (idx as int) < self.capacity(),
        ensures
            r == (self.map_blocked(idx as int) || self.entity_blocked(idx as int)),
    {
        self.blocked_by_map[idx] || self.blocked_by_entity[idx]
    }

    /// The entities recorded on tile `idx`, with their blocking flags.
    pub fn entities_at(&self, idx: usize) -> (r: &Vec<(u64, bool)>)
        requires
            self.wf(),
            (idx as int) < self.capacity(),
        ensures
            r@ == self.occupants(idx as int),
    {
        &self.tile_content[idx]
    }
}

} // verus!
