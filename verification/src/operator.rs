use vstd::prelude::*;
use crate::centroids::Centroids;
use crate::lists::Lists;
use crate::ranges::Ranges;

verus! {

/// The one active routing strategy of a context, with the parameters it
/// needs. Exactly one variant is selected per context, by the fixed
/// priority of `ContextBuilder::shards`.
#[derive(Debug)]
pub enum Operator {
    /// Uniform hash-modulo routing over this many shards.
    Shards(usize),
    /// Ordered-range lookup.
    Range(Ranges),
    /// Discrete-list lookup.
    List(Lists),
    /// Nearest-centroid probing; `shards` carries the table's shard count
    /// for the dispatch layer, `probes` the configured probe width.
    Centroids { shards: usize, probes: usize, centroids: Centroids },
}

impl Operator {
    pub open spec fn wf(self) -> bool {
        match self {
            Operator::Shards(n) => n >= 1,
            Operator::Range(r) => r.wf(),
            Operator::List(l) => l.wf(),
            Operator::Centroids { shards, probes, centroids } => {
                &&& shards >= 1
                &&& probes >= 1
                &&& centroids.wf()
            },
        }
    }
}

} // verus!
