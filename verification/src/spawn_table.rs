//! Weighted spawn tables: the lookup the spawning steps draw from.
//!
//! The table itself is supplied by the caller (its contents are data-driven
//! and belong to the game, not to the generator); the library only performs
//! the weighted selection, so that a seeded build picks the same tags every
//! time.

use vstd::prelude::*;

verus! {

use crate::map::clone_string;
use crate::rng::{next_state, range_result, RandomSource};

/// One selectable tag with its relative weight.
pub struct SpawnTableEntry {
    pub name: String,
    pub weight: i32,
}

/// The total weight of a sequence of entries.
pub open spec fn weight_sum(s: Seq<SpawnTableEntry>) -> int
    decreases s.len(),
{
    if s.len() == 0 {
        0
    } else {
        s[0].weight + weight_sum(s.subrange(1, s.len() as int))
    }
}

/// The entry a roll of `r` selects: the first index whose cumulative weight
/// exceeds `r`.
pub open spec fn pick_index(s: Seq<SpawnTableEntry>, r: int) -> int
    decreases s.len(),
{
    if s.len() == 0 {
        0
    } else if r < s[0].weight {
        0
    } else {
        1 + pick_index(s.subrange(1, s.len() as int), r - s[0].weight)
    }
}

/// Appending an entry adds its weight to the total.
pub proof fn lemma_weight_sum_push(s: Seq<SpawnTableEntry>, x: SpawnTableEntry)
    ensures
        weight_sum(s.push(x)) == weight_sum(s) + x.weight,
    decreases s.len(),
{
    if s.len() == 0 {
        assert(s.push(x).subrange(1, s.push(x).len() as int) =~= Seq::<SpawnTableEntry>::empty());
        assert(s.push(x)[0] == x);
        assert(weight_sum(s.push(x)) == x.weight + weight_sum(
            s.push(x).subrange(1, s.push(x).len() as int),
        ));
        assert(weight_sum(Seq::<SpawnTableEntry>::empty()) == 0);
    } else {
        assert(s.push(x).subrange(1, s.push(x).len() as int) =~= s.subrange(
            1,
            s.len() as int,
        ).push(x));
        lemma_weight_sum_push(s.subrange(1, s.len() as int), x);
        assert(s.push(x)[0] == s[0]);
        assert(weight_sum(s.push(x)) == s[0].weight + weight_sum(
            s.subrange(1, s.len() as int).push(x),
        ));
    }
}

/// A non-negative roll below the total weight selects an in-range entry.
pub proof fn lemma_pick_index_in_range(s: Seq<SpawnTableEntry>, r: int)
    requires
        0 <= r < weight_sum(s),
        forall|i: int| 0 <= i < s.len() ==> s[i].weight >= 1,
    ensures
        0 <= pick_index(s, r) < s.len(),
    decreases s.len(),
{
    if s.len() > 0 && r >= s[0].weight {
        lemma_pick_index_in_range(s.subrange(1, s.len() as int), r - s[0].weight);
    }
}

/// A weighted table of spawnable tags.
pub struct SpawnTable {
    pub entries: Vec<SpawnTableEntry>,
}

impl SpawnTable {
    /// Every weight positive (an unpickable entry has no place in the table)
    /// and the total weight small enough to draw against.
    pub open spec fn wf(self) -> bool {
        &&& forall|i: int| 0 <= i < self.entries@.len() ==> self.entries@[i].weight >= 1
        &&& weight_sum(self.entries@) <= 0x7fff_ffff
    }

    pub fn new() -> (t: SpawnTable)
        ensures
            t.wf(),
            t.entries@.len() == 0,
    {
        SpawnTable { entries: Vec::new() }
    }

    /// Adds one tag with the given weight.
    pub fn add(&mut self, name: &str, weight: i32)
        requires
            old(self).wf(),
            1 <= weight,
            weight_sum(old(self).entries@) + weight <= 0x7fff_ffff,
        ensures
            final(self).wf(),
            final(self).entries@.len() == old(self).entries@.len() + 1,
            forall|i: int|
                0 <= i < old(self).entries@.len() ==> final(self).entries@[i] == old(self).entries@[i],
            final(self).entries@.last().name@ == name@,
            final(self).entries@.last().weight == weight,
            weight_sum(final(self).entries@) == weight_sum(old(self).entries@) + weight,
    {
        let entry = SpawnTableEntry { name: name.to_string(), weight };
        proof {
            lemma_weight_sum_push(self.entries@, entry);
        }
        self.entries.push(entry);
    }

    /// The total weight of the table.
    pub fn total_weight(&self) -> (t: i32)
        requires
            self.wf(),
        ensures
            t as int == weight_sum(self.entries@),
            t >= 0,
    {
        proof {
            lemma_weight_sum_nonneg(self.entries@);
        }
        let mut total: i64 = 0;
        let mut i: usize = 0;
        let n: usize = self.entries.len();
        proof {
            assert(self.entries@.subrange(0, 0) =~= Seq::<SpawnTableEntry>::empty());
        }
        while i < n
            invariant
                self.wf(),
                i <= n,
                n == self.entries@.len(),
                total as int == weight_sum(self.entries@.subrange(0, i as int)),
                0 <= total <= 0x7fff_ffff,
            decreases n - i,
        {
            proof {
                lemma_weight_sum_nonneg(self.entries@.subrange(i as int + 1, n as int));
                lemma_weight_sum_split(self.entries@, i as int + 1);
                assert(self.entries@.subrange(0, i as int + 1) =~= self.entries@.subrange(
                    0,
                    i as int,
                ).push(self.entries@[i as int]));
                lemma_weight_sum_push(self.entries@.subrange(0, i as int), self.entries@[i as int]);
            }
            total = total + (self.entries[i].weight as i64);
            i = i + 1;
        }
        proof {
            assert(self.entries@.subrange(0, n as int) =~= self.entries@);
        }
        total as i32
    }

    /// One weighted draw.  An empty table yields nothing; otherwise the
    /// result is exactly the entry that the roll's cumulative walk selects.
    pub fn roll(&self, rng: &mut RandomSource) -> (r: Option<String>)
        requires
            self.wf(),
        ensures
            r is None <==> self.entries@.len() == 0,
            self.entries@.len() == 0 ==> final(rng)@ == old(rng)@,
            self.entries@.len() > 0 ==> {
                let k = pick_index(
                    self.entries@,
                    range_result(old(rng)@, 0, weight_sum(self.entries@)),
                );
                &&& final(rng)@ == next_state(old(rng)@)
                &&& 0 <= k < self.entries@.len()
                &&& (match r {
                    Option::Some(s) => s@ == self.entries@[k].name@,
                    Option::None => false,
                })
            },
    {
        let n: usize = self.entries.len();
        if n == 0 {
            return None;
        }
        proof {
            lemma_weight_sum_at_least_len(self.entries@);
        }
        let total: i32 = self.total_weight();
        let mut roll: i32 = rng.range(0, total);
        let ghost roll0: int = roll as int;
        let mut i: usize = 0;
        proof {
            assert(self.entries@.subrange(0, n as int) =~= self.entries@);
            lemma_pick_index_in_range(self.entries@, roll0);
        }
        while i < n
            invariant
                self.wf(),
                i <= n,
                n == self.entries@.len(),
                0 <= roll,
                roll0 == range_result(old(rng)@, 0, weight_sum(self.entries@)),
                rng@ == next_state(old(rng)@),
                roll as int == roll0 - weight_sum(self.entries@.subrange(0, i as int)),
                (roll as int) < weight_sum(self.entries@.subrange(i as int, n as int)),
                pick_index(self.entries@, roll0) == i + pick_index(
                    self.entries@.subrange(i as int, n as int),
                    roll as int,
                ),
            decreases n - i,
        {
            let w: i32 = self.entries[i].weight;
            proof {
                lemma_weight_sum_nonneg(self.entries@.subrange(i as int + 1, n as int));
                assert(self.entries@.subrange(i as int, n as int)[0] == self.entries@[i as int]);
                assert(self.entries@.subrange(i as int, n as int).subrange(
                    1,
                    (n - i) as int,
                ) =~= self.entries@.subrange(i as int + 1, n as int));
            }
            if roll < w {
                proof {
                    assert(pick_index(self.entries@.subrange(i as int, n as int), roll as int)
                        == 0);
                    assert(pick_index(self.entries@, roll0) == i as int);
                    assert(roll0 == range_result(old(rng)@, 0, weight_sum(self.entries@)));
                }
                return Some(clone_string(&self.entries[i].name));
            }
            proof {
                assert(self.entries@.subrange(0, i as int + 1) =~= self.entries@.subrange(
                    0,
                    i as int,
                ).push(self.entries@[i as int]));
                lemma_weight_sum_push(self.entries@.subrange(0, i as int), self.entries@[i as int]);
            }
            roll = roll - w;
            i = i + 1;
        }
        proof {
            assert(self.entries@.subrange(n as int, n as int) =~= Seq::<SpawnTableEntry>::empty());
            assert(false);
        }
        None
    }
}

/// A table of positive weights has non-negative total.
pub proof fn lemma_weight_sum_nonneg(s: Seq<SpawnTableEntry>)
    requires
        forall|i: int| 0 <= i < s.len() ==> s[i].weight >= 1,
    ensures
        weight_sum(s) >= 0,
    decreases s.len(),
{
    if s.len() > 0 {
        lemma_weight_sum_nonneg(s.subrange(1, s.len() as int));
    }
}

/// With positive weights the total is at least the number of entries.
pub proof fn lemma_weight_sum_at_least_len(s: Seq<SpawnTableEntry>)
    requires
        forall|i: int| 0 <= i < s.len() ==> s[i].weight >= 1,
    ensures
        weight_sum(s) >= s.len(),
    decreases s.len(),
{
    if s.len() > 0 {
        lemma_weight_sum_at_least_len(s.subrange(1, s.len() as int));
    }
}

/// The total weight splits at any index into the prefix and suffix totals.
pub proof fn lemma_weight_sum_split(s: Seq<SpawnTableEntry>, k: int)
    requires
        0 <= k <= s.len(),
    ensures
        weight_sum(s) == weight_sum(s.subrange(0, k)) + weight_sum(s.subrange(k, s.len() as int)),
    decreases k,
{
    if k == 0 {
        assert(s.subrange(0, 0) =~= Seq::<SpawnTableEntry>::empty());
        assert(s.subrange(0, s.len() as int) =~= s);
    } else {
        lemma_weight_sum_split(s, k - 1);
        assert(s.subrange(0, k) =~= s.subrange(0, k - 1).push(s[k - 1]));
        lemma_weight_sum_push(s.subrange(0, k - 1), s[k - 1]);
        assert(s.subrange(k - 1, s.len() as int)[0] == s[k - 1]);
        assert(s.subrange(k - 1, s.len() as int).subrange(
            1,
            s.len() - (k - 1),
        ) =~= s.subrange(k, s.len() as int));
        assert(weight_sum(s.subrange(k - 1, s.len() as int)) == s[k - 1].weight + weight_sum(
            s.subrange(k, s.len() as int),
        ));
    }
}

} // verus!
