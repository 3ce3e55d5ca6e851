use vstd::prelude::*;
use crate::centroids::{centroid_answer, Shard};
use crate::error::Error;
use crate::hasher::{spec_digest, Hasher};
use crate::lists::list_lookup;
use crate::operator::Operator;
use crate::ranges::range_lookup;
use crate::value::{Parsed, Value};

verus! {

/// The fully-resolved routing state for one query: the selected operator,
/// the typed key value, and the digest algorithm. Immutable; produced only
/// by `ContextBuilder::build`, so no half-built context exists.
#[derive(Debug)]
pub struct Context {
    pub operator: Operator,
    pub value: Value,
    pub hasher: Hasher,
}

impl Context {
    pub open spec fn wf(self) -> bool {
        &&& self.operator.wf()
        &&& self.value.wf()
    }

    /// The shard assignment resolution must report, per operator:
    /// hash-modulo for uniform routing, greatest-lower-bound lookup for
    /// ranges, exact match for lists, and nearest-centroid probing for
    /// centroids. Lookup misses are reported, never defaulted.
    pub open spec fn spec_resolution(self, r: Result<Shard, Error>) -> bool {
        match self.operator {
            Operator::Shards(n) => r == Ok::<Shard, Error>(
                Shard::Direct(((spec_digest(self.hasher, self.value.raw@) as int % (
                n as int)) as usize)),
            ),
            Operator::Range(rg) => match self.value.parsed {
                Parsed::Int(k) => match range_lookup(rg.entries@, k as int) {
                    Some(s) => r == Ok::<Shard, Error>(Shard::Direct(s)),
                    None => r == Err::<Shard, Error>(Error::NoRangeMatch),
                },
                _ => r == Err::<Shard, Error>(Error::NoRangeMatch),
            },
            Operator::List(l) => match list_lookup(l.model(), self.value.raw@) {
                Some(s) => r == Ok::<Shard, Error>(Shard::Direct(s)),
                None => r == Err::<Shard, Error>(Error::NoListMatch),
            },
            Operator::Centroids { shards: _, probes, centroids } => r matches Ok(sh)
                && centroid_answer(centroids.model(), self.value.spec_vector(), probes as int, sh),
        }
    }

    /// Compute the shard assignment for this context.
    ///
    /// Range lookup compares the raw (unhashed) integer key against the
    /// configured bounds; a non-integer value under a range operator is
    /// out of domain and reported as `NoRangeMatch`. List lookup compares
    /// the raw key bytes exactly.
    pub fn resolve(&self) -> (r: Result<Shard, Error>)
        requires
            self.wf(),
        ensures
            self.spec_resolution(r),
    {
        match &self.operator {
            Operator::Shards(n) => {
                let d = self.hasher.digest(&self.value.raw);
                let idx = (d % (*n as u64)) as usize;
                Ok(Shard::Direct(idx))
            },
            Operator::Range(rg) => match &self.value.parsed {
                Parsed::Int(k) => match rg.locate(*k) {
                    Some(s) => Ok(Shard::Direct(s)),
                    None => Err(Error::NoRangeMatch),
                },
                _ => Err(Error::NoRangeMatch),
            },
            Operator::List(l) => match l.locate(&self.value.raw) {
                Some(s) => Ok(Shard::Direct(s)),
                None => Err(Error::NoListMatch),
            },
            Operator::Centroids { shards: _, probes, centroids } => {
                let empty: Vec<i32> = Vec::new();
                let q: &Vec<i32> = match &self.value.parsed {
                    Parsed::Vector(v) => v,
                    _ => &empty,
                };
                Ok(centroids.resolve(q, *probes))
            },
        }
    }
}

} // verus!
