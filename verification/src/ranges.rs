use vstd::prelude::*;

verus! {

/// One range bucket: every key at or above `bound` (and below the next
/// bucket's bound) routes to `shard`.
#[derive(Clone, Copy, Debug, PartialEq, Eq, Structural)]
pub struct RangeEntry {
    pub bound: i64,
    pub shard: usize,
}

/// Strictly increasing lower bounds.
pub open spec fn ranges_sorted(s: Seq<RangeEntry>) -> bool {
    forall|i: int, j: int| 0 <= i < j < s.len() ==> s[i].bound < s[j].bound
}

/// The shard of the last entry whose bound is at or below `key`; under
/// [`ranges_sorted`] that entry carries the greatest such bound. `None`
/// when the key lies below every bound.
pub open spec fn range_lookup(s: Seq<RangeEntry>, key: int) -> Option<usize>
    decreases s.len(),
{
    if s.len() == 0 {
        None
    } else if s.last().bound <= key {
        Some(s.last().shard)
    } else {
        range_lookup(s.drop_last(), key)
    }
}

/// Ordered-range lookup table, built once from configuration.
#[derive(Debug)]
pub struct Ranges {
    pub entries: Vec<RangeEntry>,
}

impl Ranges {
    pub open spec fn wf(self) -> bool {
        ranges_sorted(self.entries@)
    }

    /// Copy the configured buckets into a lookup table.
    pub fn from_entries(entries: &Vec<RangeEntry>) -> (r: Ranges)
        ensures
            r.entries@ == entries@,
    {
        Ranges { entries: vstd::slice::slice_to_vec(entries.as_slice()) }
    }

    /// Locate the bucket owning `key`: the entry with the greatest lower
    /// bound at or below it. A key below every bound finds no bucket.
    pub fn locate(&self, key: i64) -> (r: Option<usize>)
        ensures
            r == range_lookup(self.entries@, key as int),
            r is Some <==> exists|i: int|
                0 <= i < self.entries@.len() && #[trigger] self.entries@[i].bound <= key,
            r matches Some(s) ==> exists|i: int|
                {
                    &&& 0 <= i < self.entries@.len()
                    &&& #[trigger] self.entries@[i].bound <= key
                    &&& self.entries@[i].shard == s
                    &&& forall|j: int|
                        i < j < self.entries@.len() ==> #[trigger] self.entries@[j].bound > key
                },
    {
        let ghost all: Seq<RangeEntry> = self.entries@;
        let mut i: usize = self.entries.len();
        proof {
            assert(all.take(i as int) =~= all);
        }
        while i > 0
            invariant
                i <= all.len(),
                all == self.entries@,
                range_lookup(all, key as int) == range_lookup(all.take(i as int), key as int),
                forall|j: int| i <= j < all.len() ==> #[trigger] all[j].bound > key,
            decreases i,
        {
            i = i - 1;
            proof {
                assert(all.take(i + 1).last() == all[i as int]);
                assert(all.take(i + 1).drop_last() =~= all.take(i as int));
            }
            if self.entries[i].bound <= key {
                return Some(self.entries[i].shard);
            }
        }
        proof {
            assert(all.take(0) =~= Seq::<RangeEntry>::empty());
        }
        None
    }
}

} // verus!
