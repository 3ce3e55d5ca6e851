use vstd::prelude::*;
use crate::centroids::Centroid;
use crate::hasher::Hasher;
use crate::lists::{list_keys_unique, lists_view, ListEntry};
use crate::ranges::{ranges_sorted, RangeEntry};
use crate::value::DataType;

verus! {

/// A table's key-to-shard mapping: at most one of an ordered range table or
/// a discrete list table.
#[derive(Debug)]
pub enum Mapping {
    Range(Vec<RangeEntry>),
    List(Vec<ListEntry>),
}

/// A sharded table's routing configuration, produced by the configuration
/// loader and consumed read-only here.
#[derive(Debug)]
pub struct ShardedTable {
    pub data_type: DataType,
    /// Reference vectors for nearest-centroid routing; empty when the table
    /// is not vector-routed.
    pub centroids: Vec<Centroid>,
    /// How many nearest centroids to probe; at least 1 when any centroid is
    /// configured.
    pub centroid_probes: usize,
    pub hasher: Hasher,
    pub mapping: Option<Mapping>,
}

impl ShardedTable {
    /// What configuration loading and validation guarantee before a
    /// descriptor reaches this crate: range bounds strictly increasing,
    /// list keys distinct, and a positive probe count wherever centroids
    /// are configured.
    pub open spec fn wf(self) -> bool {
        &&& match self.mapping {
            Some(Mapping::Range(v)) => ranges_sorted(v@),
            Some(Mapping::List(v)) => list_keys_unique(lists_view(v@)),
            None => true,
        }
        &&& (self.centroids@.len() > 0 ==> self.centroid_probes >= 1)
    }
}

} // verus!
