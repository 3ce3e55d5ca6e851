use vstd::prelude::*;
use vstd::string::StringSliceAdditionalSpecFns;
use crate::centroids::{centroids_view, Centroids};
use crate::config::{Mapping, ShardedTable};
use crate::context::Context;
use crate::error::Error;
use crate::hasher::Hasher;
use crate::lists::{lists_view, Lists};
use crate::operator::Operator;
use crate::ranges::Ranges;
use crate::value::{int_text_wf, spec_parsed, uuid_text_wf, DataType, Value};

verus! {

/// Staged constructor of a [`Context`].
///
/// Seeded either from a table descriptor or from raw text (schema-less
/// inference), then finalized: `shards` selects the one active operator by
/// fixed priority, `data`/`value` supply the key, and `build` is the single
/// validation gate — no incomplete context can escape.
#[derive(Debug)]
pub struct ContextBuilder {
    pub data_type: DataType,
    pub value: Option<Value>,
    pub operator: Option<Operator>,
    pub centroids: Option<Centroids>,
    pub ranges: Option<Ranges>,
    pub lists: Option<Lists>,
    pub probes: usize,
    pub hasher: Hasher,
}

/// What seeding from a descriptor establishes: type, hasher and probe count
/// copied; no value and no operator yet; each lookup structure present
/// exactly when the descriptor configures it, holding the same entries.
pub open spec fn seeded_from(b: ContextBuilder, table: ShardedTable) -> bool {
    &&& b.data_type == table.data_type
    &&& b.hasher == table.hasher
    &&& b.probes == table.centroid_probes
    &&& b.value is None
    &&& b.operator is None
    &&& (table.centroids@.len() == 0 <==> b.centroids is None)
    &&& (b.centroids matches Some(c) ==> c.model() == centroids_view(table.centroids@))
    &&& (b.ranges is Some <==> table.mapping matches Some(Mapping::Range(_)))
    &&& (table.mapping matches Some(Mapping::Range(v)) ==> b.ranges matches Some(rg)
        && rg.entries@ == v@)
    &&& (b.lists is Some <==> table.mapping matches Some(Mapping::List(_)))
    &&& (table.mapping matches Some(Mapping::List(v)) ==> b.lists matches Some(l) && l.model()
        == lists_view(v@))
}

/// Shape of a schema-less builder over raw bytes inferred as `dt`: the
/// value is pre-set and valid, nothing else is configured, and the hasher
/// defaults to the native variant.
pub open spec fn inferred_from(b: ContextBuilder, raw: Seq<u8>, dt: DataType) -> bool {
    &&& b.data_type == dt
    &&& b.value matches Some(v) && v.raw@ == raw && v.data_type == dt && v.parsed == spec_parsed(
        raw,
        dt,
    ) && v.spec_valid()
    &&& b.operator is None
    &&& b.centroids is None
    &&& b.ranges is None
    &&& b.lists is None
    &&& b.probes == 0
    &&& b.hasher == Hasher::Postgres
}

/// What finalization does: exactly one operator is selected, by the fixed
/// priority centroids, then ranges, then lists, then uniform hashing; the
/// selected structure is consumed; everything else is kept.
pub open spec fn strategy_applied(pre: ContextBuilder, post: ContextBuilder, n: usize) -> bool {
    &&& post.data_type == pre.data_type
    &&& post.hasher == pre.hasher
    &&& post.probes == pre.probes
    &&& post.value == pre.value
    &&& (pre.centroids matches Some(c) ==> {
        &&& post.operator == Some(
            Operator::Centroids { shards: n, probes: pre.probes, centroids: c },
        )
        &&& post.centroids is None
        &&& post.ranges == pre.ranges
        &&& post.lists == pre.lists
    })
    &&& (pre.ranges matches Some(rg) ==> (pre.centroids is None ==> {
        &&& post.operator == Some(Operator::Range(rg))
        &&& post.centroids is None
        &&& post.ranges is None
        &&& post.lists == pre.lists
    }))
    &&& (pre.lists matches Some(l) ==> (pre.centroids is None && pre.ranges is None ==> {
        &&& post.operator == Some(Operator::List(l))
        &&& post.centroids is None
        &&& post.ranges is None
        &&& post.lists is None
    }))
    &&& (pre.centroids is None && pre.ranges is None && pre.lists is None ==> {
        &&& post.operator == Some(Operator::Shards(n))
        &&& post.centroids is None
        &&& post.ranges is None
        &&& post.lists is None
    })
}

impl ContextBuilder {
    /// Everything a builder may hold is itself well formed; a positive
    /// probe count accompanies any configured centroid set.
    pub open spec fn wf(self) -> bool {
        &&& match self.value {
            Some(v) => v.wf(),
            None => true,
        }
        &&& match self.operator {
            Some(op) => op.wf(),
            None => true,
        }
        &&& match self.centroids {
            Some(c) => c.wf() && self.probes >= 1,
            None => true,
        }
        &&& match self.ranges {
            Some(rg) => rg.wf(),
            None => true,
        }
        &&& match self.lists {
            Some(l) => l.wf(),
            None => true,
        }
    }

    /// Seed a builder from a table descriptor, building each configured
    /// lookup structure eagerly — which one the final operator uses is not
    /// known until `shards` is called.
    pub fn new(table: &ShardedTable) -> (b: ContextBuilder)
        requires
            table.wf(),
        ensures
            seeded_from(b, *table),
            b.wf(),
    {
        let centroids = if table.centroids.len() == 0 {
            None
        } else {
            Some(Centroids::from_entries(&table.centroids))
        };
        let ranges = match &table.mapping {
            Some(Mapping::Range(v)) => Some(Ranges::from_entries(v)),
            _ => None,
        };
        let lists = match &table.mapping {
            Some(Mapping::List(v)) => Some(Lists::from_entries(v)),
            _ => None,
        };
        ContextBuilder {
            data_type: table.data_type,
            value: None,
            operator: None,
            centroids,
            ranges,
            lists,
            probes: table.centroid_probes,
            hasher: table.hasher,
        }
    }

    /// Guess the data type of raw text: first as a 64-bit integer, then as
    /// a UUID — the trial order is part of the contract. With neither, the
    /// input is unroutable and `IncompleteContext` is returned at once.
    pub fn from_str(value: &str) -> (r: Result<ContextBuilder, Error>)
        ensures
            int_text_wf(value.spec_bytes()) ==> (r matches Ok(b) && inferred_from(
                b,
                value.spec_bytes(),
                DataType::Bigint,
            ) && b.wf()),
            !int_text_wf(value.spec_bytes()) && uuid_text_wf(value.spec_bytes()) ==> (r matches Ok(
                b,
            ) && inferred_from(b, value.spec_bytes(), DataType::Uuid) && b.wf()),
            !int_text_wf(value.spec_bytes()) && !uuid_text_wf(value.spec_bytes()) ==> r
                == Err::<ContextBuilder, Error>(Error::IncompleteContext),
    {
        let raw = vstd::slice::slice_to_vec(value.as_bytes());
        let bigint = Value::new(raw, DataType::Bigint);
        if bigint.valid() {
            Ok(
                ContextBuilder {
                    data_type: DataType::Bigint,
                    value: Some(bigint),
                    probes: 0,
                    centroids: None,
                    operator: None,
                    hasher: Hasher::Postgres,
                    ranges: None,
                    lists: None,
                },
            )
        } else {
            let raw = vstd::slice::slice_to_vec(value.as_bytes());
            let uuid = Value::new(raw, DataType::Uuid);
            if uuid.valid() {
                Ok(
                    ContextBuilder {
                        data_type: DataType::Uuid,
                        value: Some(uuid),
                        probes: 0,
                        centroids: None,
                        operator: None,
                        hasher: Hasher::Postgres,
                        ranges: None,
                        lists: None,
                    },
                )
            } else {
                Err(Error::IncompleteContext)
            }
        }
    }

    /// Finalize the strategy for `shards` shards, consuming whichever
    /// structure wins the fixed priority: centroids over ranges over lists
    /// over uniform hashing. Always selects exactly one operator.
    pub fn shards(self, shards: usize) -> (r: ContextBuilder)
        requires
            self.wf(),
            shards >= 1,
        ensures
            strategy_applied(self, r, shards),
            r.operator is Some,
            r.wf(),
    {
        let ContextBuilder { data_type, value, operator: _, centroids, ranges, lists, probes, hasher } =
            self;
        if let Some(c) = centroids {
            ContextBuilder {
                data_type,
                value,
                operator: Some(Operator::Centroids { shards, probes, centroids: c }),
                centroids: None,
                ranges,
                lists,
                probes,
                hasher,
            }
        } else if let Some(rg) = ranges {
            ContextBuilder {
                data_type,
                value,
                operator: Some(Operator::Range(rg)),
                centroids: None,
                ranges: None,
                lists,
                probes,
                hasher,
            }
        } else if let Some(l) = lists {
            ContextBuilder {
                data_type,
                value,
                operator: Some(Operator::List(l)),
                centroids: None,
                ranges: None,
                lists: None,
                probes,
                hasher,
            }
        } else {
            ContextBuilder {
                data_type,
                value,
                operator: Some(Operator::Shards(shards)),
                centroids: None,
                ranges: None,
                lists: None,
                probes,
                hasher,
            }
        }
    }

    /// Convert raw key bytes into a typed value under the builder's data
    /// type, overwriting any previously set value.
    pub fn data(self, data: Vec<u8>) -> (r: ContextBuilder)
        requires
            self.wf(),
        ensures
            r.value matches Some(v) && v.raw@ == data@ && v.data_type == self.data_type
                && v.parsed == spec_parsed(data@, self.data_type),
            r.data_type == self.data_type,
            r.operator == self.operator,
            r.centroids == self.centroids,
            r.ranges == self.ranges,
            r.lists == self.lists,
            r.probes == self.probes,
            r.hasher == self.hasher,
            r.wf(),
    {
        let ContextBuilder { data_type, value: _, operator, centroids, ranges, lists, probes, hasher } =
            self;
        let value = Value::new(data, data_type);
        ContextBuilder {
            data_type,
            value: Some(value),
            operator,
            centroids,
            ranges,
            lists,
            probes,
            hasher,
        }
    }

    /// Accept an already-typed value (the caller parsed it, e.g. a vector
    /// key), overwriting any previously set value.
    pub fn value(self, value: Value) -> (r: ContextBuilder)
        requires
            self.wf(),
            value.wf(),
        ensures
            r.value == Some(value),
            r.data_type == self.data_type,
            r.operator == self.operator,
            r.centroids == self.centroids,
            r.ranges == self.ranges,
            r.lists == self.lists,
            r.probes == self.probes,
            r.hasher == self.hasher,
            r.wf(),
    {
        let ContextBuilder { data_type, value: _, operator, centroids, ranges, lists, probes, hasher } =
            self;
        ContextBuilder {
            data_type,
            value: Some(value),
            operator,
            centroids,
            ranges,
            lists,
            probes,
            hasher,
        }
    }

    /// The single validation gate: succeeds exactly when both an operator
    /// and a value were supplied, and fails with `IncompleteContext` when
    /// either is missing — whichever of the two it is.
    pub fn build(self) -> (r: Result<Context, Error>)
        requires
            self.wf(),
        ensures
            self.operator matches Some(op) ==> (self.value matches Some(v) ==> (r matches Ok(ctx)
                && ctx.operator == op && ctx.value == v && ctx.hasher == self.hasher && ctx.wf())),
            self.operator is None || self.value is None ==> r == Err::<Context, Error>(
                Error::IncompleteContext,
            ),
    {
        let operator = match self.operator {
            Some(op) => op,
            None => {
                return Err(Error::IncompleteContext);
            },
        };
        let value = match self.value {
            Some(v) => v,
            None => {
                return Err(Error::IncompleteContext);
            },
        };
        Ok(Context { operator, value, hasher: self.hasher })
    }
}

/// Centroid routing takes priority: from a descriptor with any centroids,
/// finalization always selects the centroid operator carrying the shard
/// count, the configured probe count and the configured centroids —
/// whatever range or list mapping the descriptor also carries.
pub proof fn lemma_centroids_take_priority(
    table: ShardedTable,
    b: ContextBuilder,
    b2: ContextBuilder,
    n: usize,
)
    requires
        seeded_from(b, table),
        table.centroids@.len() > 0,
        strategy_applied(b, b2, n),
    ensures
        b2.operator matches Some(op) && op matches Operator::Centroids {
            shards,
            probes,
            centroids,
        } && shards == n && probes == table.centroid_probes && centroids.model() == centroids_view(
            table.centroids@,
        ),
{
}

/// With no centroids, a range mapping wins: finalization selects the range
/// operator holding the descriptor's range entries.
pub proof fn lemma_ranges_win_without_centroids(
    table: ShardedTable,
    b: ContextBuilder,
    b2: ContextBuilder,
    n: usize,
)
    requires
        seeded_from(b, table),
        table.centroids@.len() == 0,
        table.mapping matches Some(Mapping::Range(_)),
        strategy_applied(b, b2, n),
    ensures
        b2.operator matches Some(op) && op matches Operator::Range(rg) && (table.mapping matches
            Some(Mapping::Range(v)) && rg.entries@ == v@),
{
}

/// With neither centroids nor ranges, a list mapping wins: finalization
/// selects the list operator holding the descriptor's list entries.
pub proof fn lemma_lists_win_without_centroids_or_ranges(
    table: ShardedTable,
    b: ContextBuilder,
    b2: ContextBuilder,
    n: usize,
)
    requires
        seeded_from(b, table),
        table.centroids@.len() == 0,
        table.mapping matches Some(Mapping::List(_)),
        strategy_applied(b, b2, n),
    ensures
        b2.operator matches Some(op) && op matches Operator::List(l) && (table.mapping matches Some(
            Mapping::List(v),
        ) && l.model() == lists_view(v@)),
{
}

/// With none of the three structures configured, finalization falls back
/// to uniform hash-modulo routing over the supplied shard count.
pub proof fn lemma_uniform_fallback(
    table: ShardedTable,
    b: ContextBuilder,
    b2: ContextBuilder,
    n: usize,
)
    requires
        seeded_from(b, table),
        table.centroids@.len() == 0,
        table.mapping is None,
        strategy_applied(b, b2, n),
    ensures
        b2.operator == Some(Operator::Shards(n)),
{
}

} // verus!
