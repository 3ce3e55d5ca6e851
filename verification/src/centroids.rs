use vstd::prelude::*;
use vstd::set_lib::{lemma_len_subset, lemma_int_range, set_int_range};

verus! {

/// One reference point of nearest-centroid routing: a vector and the shard
/// that owns the region around it.
#[derive(Debug)]
pub struct Centroid {
    pub vector: Vec<i32>,
    pub shard: usize,
}

/// Spec-level image of a [`Centroid`].
pub ghost struct CentroidView {
    pub vector: Seq<i32>,
    pub shard: usize,
}

impl View for Centroid {
    type V = CentroidView;

    open spec fn view(&self) -> CentroidView {
        CentroidView { vector: self.vector@, shard: self.shard }
    }
}

pub open spec fn centroids_view(s: Seq<Centroid>) -> Seq<CentroidView> {
    s.map_values(|c: Centroid| c@)
}

// ---------------------------------------------------------------------------
// Squared Euclidean distance
// ---------------------------------------------------------------------------

/// Coordinate `i` of a vector, with missing coordinates read as zero, so
/// vectors of unequal dimension compare as if zero-padded.
pub open spec fn coord(v: Seq<i32>, i: int) -> int {
    if 0 <= i < v.len() {
        v[i] as int
    } else {
        0
    }
}

pub open spec fn dist2_upto(a: Seq<i32>, b: Seq<i32>, n: int) -> int
    decreases n,
{
    if n <= 0 {
        0
    } else {
        dist2_upto(a, b, n - 1) + (coord(a, n - 1) - coord(b, n - 1)) * (coord(a, n - 1) - coord(
            b,
            n - 1,
        ))
    }
}

/// Squared Euclidean distance between two vectors, zero-padded to the
/// longer dimension.
pub open spec fn dist2(a: Seq<i32>, b: Seq<i32>) -> int {
    dist2_upto(
        a,
        b,
        if a.len() >= b.len() {
            a.len() as int
        } else {
            b.len() as int
        },
    )
}

/// Compute the squared distance. Each term is below `2^64` and there are at
/// most `usize::MAX` of them, so the sum fits a `u128`.
pub fn dist2_of(a: &Vec<i32>, b: &Vec<i32>) -> (d: u128)
    ensures
        d as int == dist2(a@, b@),
{
    let n: usize = if a.len() >= b.len() {
        a.len()
    } else {
        b.len()
    };
    let mut acc: u128 = 0;
    let mut i: usize = 0;
    while i < n
        invariant
            i <= n,
            n == (if a@.len() >= b@.len() {
                a@.len()
            } else {
                b@.len()
            }),
            acc as int == dist2_upto(a@, b@, i as int),
            acc as int <= (i as int) * 0xfffffffe00000001,
        decreases n - i,
    {
        let x: i64 = if i < a.len() {
            a[i] as i64
        } else {
            0
        };
        let y: i64 = if i < b.len() {
            b[i] as i64
        } else {
            0
        };
        let diff: i64 = x - y;
        proof {
            assert(x as int == coord(a@, i as int));
            assert(y as int == coord(b@, i as int));
            assert(-0xffffffff <= diff as int && diff as int <= 0xffffffff);
            assert(0 <= diff as int * diff as int <= 0xfffffffe00000001) by (nonlinear_arith)
                requires
                    -0xffffffff <= diff as int && diff as int <= 0xffffffff,
            ;
            assert((i as int + 1) * 0xfffffffe00000001 < 0x100000000000000000000000000000000)
                by (nonlinear_arith)
                requires
                    0 <= i as int + 1 <= 0x10000000000000000,
            ;
            assert(acc as int + diff as int * diff as int <= (i as int + 1) * 0xfffffffe00000001);
        }
        let sq: i128 = (diff as i128) * (diff as i128);
        acc = acc + (sq as u128);
        i = i + 1;
    }
    acc
}

// ---------------------------------------------------------------------------
// Probe selection
// ---------------------------------------------------------------------------

pub open spec fn min_int(a: int, b: int) -> int {
    if a < b {
        a
    } else {
        b
    }
}

/// Strict preference order of the probe search: nearer centroids first,
/// the lower index breaking ties.
pub open spec fn nearer(cs: Seq<CentroidView>, q: Seq<i32>, i: int, j: int) -> bool {
    ||| dist2(cs[i].vector, q) < dist2(cs[j].vector, q)
    ||| (dist2(cs[i].vector, q) == dist2(cs[j].vector, q) && i < j)
}

/// `sel` is the set of the `k` nearest centroid indices: every selected
/// index is preferred to every unselected one.
pub open spec fn nearest_set(cs: Seq<CentroidView>, q: Seq<i32>, k: int, sel: Set<int>) -> bool {
    &&& sel.finite()
    &&& sel.len() == k
    &&& forall|i: int| #[trigger] sel.contains(i) ==> 0 <= i < cs.len()
    &&& forall|i: int, j: int|
        sel.contains(i) && 0 <= j < cs.len() && !sel.contains(j) ==> #[trigger] nearer(cs, q, i, j)
}

/// Some selected centroid routes to shard `s`.
pub open spec fn shard_in_selection(cs: Seq<CentroidView>, sel: Set<int>, s: usize) -> bool {
    exists|i: int| #[trigger] sel.contains(i) && 0 <= i < cs.len() && cs[i].shard == s
}

/// How a selection is reported: one index when every probed centroid agrees
/// on the shard, otherwise the set of distinct shards, for fan-out.
pub open spec fn shard_answer(cs: Seq<CentroidView>, sel: Set<int>, r: Shard) -> bool {
    match r {
        Shard::Direct(s) => {
            &&& shard_in_selection(cs, sel, s)
            &&& forall|i: int| #[trigger] sel.contains(i) ==> cs[i].shard == s
        },
        Shard::Multi(v) => {
            &&& v@.no_duplicates()
            &&& v@.len() >= 2
            &&& forall|s: usize| #[trigger] v@.contains(s) <==> shard_in_selection(cs, sel, s)
        },
    }
}

/// The full centroid-routing contract: the probed indices are the
/// `min(probes, n)` nearest, and the answer reports their shards.
pub open spec fn centroid_answer(cs: Seq<CentroidView>, q: Seq<i32>, probes: int, r: Shard) -> bool {
    exists|sel: Set<int>|
        #[trigger] nearest_set(cs, q, min_int(probes, cs.len() as int), sel) && shard_answer(
            cs,
            sel,
            r,
        )
}

/// A resolved shard assignment: one index, or a fan-out set of indices.
#[derive(Debug, PartialEq, Eq)]
pub enum Shard {
    Direct(usize),
    Multi(Vec<usize>),
}

/// The set of indices a pick list holds.
pub open spec fn idx_set(p: Seq<usize>) -> Set<int> {
    Set::new(
        |i: int| exists|m: int| 0 <= m < p.len() && #[trigger] p[m] as int == i,
    )
}

proof fn lemma_idx_set_contains(p: Seq<usize>, x: usize)
    ensures
        idx_set(p).contains(x as int) == p.contains(x),
{
    if p.contains(x) {
        let m = choose|m: int| 0 <= m < p.len() && p[m] == x;
        assert(p[m] as int == x as int);
    }
    if idx_set(p).contains(x as int) {
        let m = choose|m: int| 0 <= m < p.len() && #[trigger] p[m] as int == x as int;
        assert(p[m] == x);
    }
}

proof fn lemma_idx_set_push(p: Seq<usize>, x: usize)
    ensures
        idx_set(p.push(x)) =~= idx_set(p).insert(x as int),
{
    assert forall|i: int| idx_set(p.push(x)).contains(i) implies idx_set(p).insert(
        x as int,
    ).contains(i) by {
        let m = choose|m: int| 0 <= m < p.push(x).len() && #[trigger] p.push(x)[m] as int == i;
        if m < p.len() {
            assert(p[m] as int == i);
        } else {
            assert(p.push(x)[m] == x);
        }
    }
    assert forall|i: int| idx_set(p).insert(x as int).contains(i) implies idx_set(
        p.push(x),
    ).contains(i) by {
        if idx_set(p).contains(i) {
            let m = choose|m: int| 0 <= m < p.len() && #[trigger] p[m] as int == i;
            assert(p.push(x)[m] as int == i);
        } else {
            assert(p.push(x)[p.len() as int] as int == x as int);
        }
    }
}

proof fn lemma_idx_set_card(p: Seq<usize>)
    requires
        p.no_duplicates(),
    ensures
        idx_set(p).finite(),
        idx_set(p).len() == p.len(),
    decreases p.len(),
{
    if p.len() == 0 {
        assert(idx_set(p) =~= Set::<int>::empty());
    } else {
        let q = p.drop_last();
        assert(q.no_duplicates());
        lemma_idx_set_card(q);
        assert(q.push(p.last()) =~= p);
        lemma_idx_set_push(q, p.last());
        assert(idx_set(p) =~= idx_set(q).insert(p.last() as int));
        lemma_idx_set_contains(q, p.last());
        assert(!q.contains(p.last()));
        assert(!idx_set(q).contains(p.last() as int));
    }
}

/// A pick list of distinct indices below `n` that is shorter than `n`
/// leaves some index unpicked.
proof fn lemma_unpicked_exists(p: Seq<usize>, n: int)
    requires
        p.no_duplicates(),
        forall|m: int| 0 <= m < p.len() ==> #[trigger] p[m] < n,
        p.len() < n,
    ensures
        exists|j: int| 0 <= j < n && !idx_set(p).contains(j),
{
    lemma_idx_set_card(p);
    if forall|j: int| 0 <= j < n ==> #[trigger] idx_set(p).contains(j) {
        assert(set_int_range(0, n).subset_of(idx_set(p)));
        lemma_int_range(0, n);
        lemma_len_subset(set_int_range(0, n), idx_set(p));
        assert(false);
    }
}

fn vec_contains_usize(v: &Vec<usize>, x: usize) -> (r: bool)
    ensures
        r == v@.contains(x),
{
    let mut i: usize = 0;
    while i < v.len()
        invariant
            i <= v@.len(),
            forall|m: int| 0 <= m < i ==> v@[m] != x,
        decreases v@.len() - i,
    {
        if v[i] == x {
            return true;
        }
        i = i + 1;
    }
    false
}

/// Scan for the most preferred centroid index that is not yet picked.
fn nearest_unpicked(entries: &Vec<Centroid>, query: &Vec<i32>, picked: &Vec<usize>) -> (best: usize)
    requires
        exists|j: int| 0 <= j < entries@.len() && !idx_set(picked@).contains(j),
    ensures
        0 <= (best as int) < entries@.len(),
        !idx_set(picked@).contains(best as int),
        forall|j: int|
            0 <= j < entries@.len() && !idx_set(picked@).contains(j) && j != best as int
                ==> nearer(centroids_view(entries@), query@, best as int, j),
{
    let ghost cs = centroids_view(entries@);
    let n = entries.len();
    let mut has_best = false;
    let mut best: usize = 0;
    let mut best_d: u128 = 0;
    let mut j: usize = 0;
    while j < n
        invariant
            n == entries@.len(),
            cs == centroids_view(entries@),
            j <= n,
            !has_best ==> forall|m: int| 0 <= m < j ==> idx_set(picked@).contains(m),
            has_best ==> {
                &&& 0 <= (best as int) < j
                &&& !idx_set(picked@).contains(best as int)
                &&& best_d as int == dist2(cs[best as int].vector, query@)
                &&& forall|m: int|
                    0 <= m < j && !idx_set(picked@).contains(m) && m != best as int ==> nearer(
                        cs,
                        query@,
                        best as int,
                        m,
                    )
            },
        decreases n - j,
    {
        let in_picked = vec_contains_usize(picked, j);
        proof {
            lemma_idx_set_contains(picked@, j);
        }
        if !in_picked {
            let d = dist2_of(&entries[j].vector, query);
            proof {
                assert(cs[j as int].vector == entries@[j as int].vector@);
            }
            if !has_best || d < best_d {
                has_best = true;
                best = j;
                best_d = d;
            }
        }
        j = j + 1;
    }
    proof {
        // The precondition guarantees an unpicked index, so the scan found one.
        let w = choose|w: int| 0 <= w < entries@.len() && !idx_set(picked@).contains(w);
        assert(has_best);
    }
    best
}

/// Nearest-centroid lookup structure: the configured reference vectors,
/// their shards, built once from configuration.
#[derive(Debug)]
pub struct Centroids {
    pub entries: Vec<Centroid>,
}

impl Centroids {
    pub open spec fn model(self) -> Seq<CentroidView> {
        centroids_view(self.entries@)
    }

    /// Centroid routing is only configured with at least one centroid.
    pub open spec fn wf(self) -> bool {
        self.entries@.len() > 0
    }

    /// Copy the configured centroids into a lookup structure.
    pub fn from_entries(entries: &Vec<Centroid>) -> (r: Centroids)
        ensures
            r.model() == centroids_view(entries@),
            entries@.len() > 0 ==> r.wf(),
    {
        let mut out: Vec<Centroid> = Vec::new();
        let mut i: usize = 0;
        while i < entries.len()
            invariant
                i <= entries@.len(),
                out@.len() == i,
                forall|j: int| 0 <= j < i ==> #[trigger] out@[j]@ == entries@[j]@,
            decreases entries@.len() - i,
        {
            let vector = vstd::slice::slice_to_vec(entries[i].vector.as_slice());
            let shard = entries[i].shard;
            out.push(Centroid { vector, shard });
            i = i + 1;
        }
        proof {
            assert(centroids_view(out@) =~= centroids_view(entries@));
        }
        Centroids { entries: out }
    }

    /// Probe the `min(probes, n)` nearest centroids to `query` and report
    /// the shard(s) they route to: one shard when they all agree, the set
    /// of distinct shards (fan-out) when they do not.
    pub fn resolve(&self, query: &Vec<i32>, probes: usize) -> (r: Shard)
        requires
            self.wf(),
            probes >= 1,
        ensures
            centroid_answer(self.model(), query@, probes as int, r),
    {
        let ghost cs = self.model();
        let n = self.entries.len();
        let k: usize = if probes < n {
            probes
        } else {
            n
        };
        let mut picked: Vec<usize> = Vec::new();
        while picked.len() < k
            invariant
                n == self.entries@.len(),
                cs == self.model(),
                1 <= k <= n,
                k == min_int(probes as int, n as int),
                picked@.len() <= k,
                picked@.no_duplicates(),
                forall|m: int| 0 <= m < picked@.len() ==> #[trigger] picked@[m] < n,
                forall|i: int, j: int|
                    idx_set(picked@).contains(i) && 0 <= j < n && !idx_set(picked@).contains(j)
                        ==> #[trigger] nearer(cs, query@, i, j),
            decreases k - picked@.len(),
        {
            proof {
                lemma_unpicked_exists(picked@, n as int);
            }
            let best = nearest_unpicked(&self.entries, query, &picked);
            proof {
                let ghost old_p = picked@;
                lemma_idx_set_push(old_p, best);
                lemma_idx_set_contains(old_p, best);
                assert(!old_p.contains(best));
                assert forall|i: int, j: int|
                    idx_set(old_p.push(best)).contains(i) && 0 <= j < n && !idx_set(
                        old_p.push(best),
                    ).contains(j) implies #[trigger] nearer(cs, query@, i, j) by {
                    assert(!idx_set(old_p).contains(j));
                    if i == best as int {
                        assert(nearer(cs, query@, best as int, j));
                    } else {
                        assert(idx_set(old_p).contains(i));
                    }
                }
            }
            picked.push(best);
        }
        // Collect the distinct shards of the picked centroids.
        let mut found: Vec<usize> = Vec::new();
        let mut i: usize = 0;
        while i < picked.len()
            invariant
                n == self.entries@.len(),
                cs == self.model(),
                i <= picked@.len(),
                forall|m: int| 0 <= m < picked@.len() ==> #[trigger] picked@[m] < n,
                found@.no_duplicates(),
                forall|s: usize| #[trigger]
                    found@.contains(s) <==> exists|m: int|
                        0 <= m < i && cs[#[trigger] picked@[m] as int].shard == s,
            decreases picked@.len() - i,
        {
            let p = picked[i];
            let s = self.entries[p].shard;
            proof {
                assert(cs[p as int].shard == s);
            }
            let already = vec_contains_usize(&found, s);
            let ghost oldf = found@;
            if !already {
                found.push(s);
            }
            proof {
                if !already {
                    assert(found@ =~= oldf.push(s));
                    assert(found@[oldf.len() as int] == s);
                    assert(found@.contains(s));
                    assert(found@.no_duplicates()) by {
                        assert forall|x: int, y: int|
                            0 <= x < y < found@.len() implies found@[x] != found@[y] by {
                            if y == oldf.len() {
                                if found@[x] == s {
                                    assert(oldf[x] == s);
                                    assert(oldf.contains(s));
                                }
                            }
                        }
                    }
                }
                assert forall|t: usize|
                    oldf.contains(t) implies #[trigger] found@.contains(t) by {
                    let w = choose|w: int| 0 <= w < oldf.len() && oldf[w] == t;
                    assert(found@[w] == t);
                }
                assert forall|t: usize| #[trigger] found@.contains(t) implies exists|m: int|
                    0 <= m < i + 1 && cs[#[trigger] picked@[m] as int].shard == t by {
                    let w = choose|w: int| 0 <= w < found@.len() && found@[w] == t;
                    if w < oldf.len() {
                        assert(oldf[w] == t);
                        assert(oldf.contains(t));
                        let m = choose|m: int|
                            0 <= m < i && cs[#[trigger] picked@[m] as int].shard == t;
                        assert(0 <= m < i + 1);
                    } else {
                        assert(t == s);
                        assert(cs[picked@[i as int] as int].shard == t);
                    }
                }
                assert forall|t: usize|
                    (exists|m: int| 0 <= m < i + 1 && cs[#[trigger] picked@[m] as int].shard == t)
                        implies #[trigger] found@.contains(t) by {
                    let m = choose|m: int|
                        0 <= m < i + 1 && cs[#[trigger] picked@[m] as int].shard == t;
                    if m < i {
                        assert(oldf.contains(t));
                    } else {
                        assert(t == s);
                        if already {
                            assert(oldf.contains(s));
                        }
                    }
                }
            }
            i = i + 1;
        }
        let ghost sel = idx_set(picked@);
        proof {
            lemma_idx_set_card(picked@);
            assert(nearest_set(cs, query@, min_int(probes as int, cs.len() as int), sel)) by {
                assert forall|i0: int| #[trigger] sel.contains(i0) implies 0 <= i0 < cs.len() by {
                    let m = choose|m: int|
                        0 <= m < picked@.len() && #[trigger] picked@[m] as int == i0;
                }
            }
            // Membership of `found` matches the shards of the selection.
            assert forall|s: usize| #[trigger]
                found@.contains(s) == shard_in_selection(cs, sel, s) by {
                if found@.contains(s) {
                    let m = choose|m: int|
                        0 <= m < picked@.len() && cs[#[trigger] picked@[m] as int].shard == s;
                    assert(sel.contains(picked@[m] as int));
                    assert(shard_in_selection(cs, sel, s));
                }
                if shard_in_selection(cs, sel, s) {
                    let i0 = choose|i0: int|
                        #[trigger] sel.contains(i0) && 0 <= i0 < cs.len() && cs[i0].shard == s;
                    let m = choose|m: int|
                        0 <= m < picked@.len() && #[trigger] picked@[m] as int == i0;
                    assert(cs[picked@[m] as int].shard == s);
                    assert(found@.contains(s));
                }
            }
            assert(picked@.len() >= 1);
            assert(sel.contains(picked@[0] as int));
            assert(found@.contains(cs[picked@[0] as int].shard));
        }
        if found.len() == 1 {
            let s = found[0];
            proof {
                assert forall|i0: int| #[trigger] sel.contains(i0) implies cs[i0].shard == s by {
                    let m = choose|m: int|
                        0 <= m < picked@.len() && #[trigger] picked@[m] as int == i0;
                    assert(found@.contains(cs[picked@[m] as int].shard));
                    let w = choose|w: int| 0 <= w < found@.len() && found@[w] == cs[i0].shard;
                    assert(w == 0);
                }
                assert(shard_answer(cs, sel, Shard::Direct(s)));
            }
            Shard::Direct(s)
        } else {
            proof {
                assert(found@.contains(cs[picked@[0] as int].shard));
                assert(found@.len() != 1);
                assert(found@.len() >= 2);
                assert(shard_answer(cs, sel, Shard::Multi(found)));
            }
            Shard::Multi(found)
        }
    }
}

/// With a single probe, a uniquely nearest centroid decides alone: the
/// resolution is direct to its configured shard, never another.
pub proof fn lemma_single_probe_routes_to_nearest(
    cs: Seq<CentroidView>,
    q: Seq<i32>,
    r: Shard,
    a: int,
)
    requires
        0 <= a < cs.len(),
        forall|j: int|
            0 <= j < cs.len() && j != a ==> dist2(cs[a].vector, q) < dist2(
                #[trigger] cs[j].vector,
                q,
            ),
        centroid_answer(cs, q, 1, r),
    ensures
        r == Shard::Direct(cs[a].shard),
{
    let sel = choose|sel: Set<int>|
        #[trigger] nearest_set(cs, q, min_int(1, cs.len() as int), sel) && shard_answer(cs, sel, r);
    assert(min_int(1, cs.len() as int) == 1);
    assert(sel.len() == 1);
    Set::lemma_is_singleton(sel);
    let i0 = sel.choose();
    assert(sel.contains(i0));
    if i0 != a {
        assert(0 <= i0 < cs.len());
        if sel.contains(a) {
            assert(a == i0);
            assert(false);
        }
        assert(nearer(cs, q, i0, a));
        assert(dist2(cs[a].vector, q) < dist2(cs[i0].vector, q));
        assert(false);
    }
    match r {
        Shard::Direct(s) => {
            assert(cs[i0].shard == s);
        },
        Shard::Multi(v) => {
            // at least two distinct shards, each from the singleton selection
            assert(v@.len() >= 2);
            assert(v@.contains(v@[0]) && v@.contains(v@[1]));
            let w0 = choose|i: int| #[trigger] sel.contains(i) && 0 <= i < cs.len() && cs[i].shard == v@[0];
            let w1 = choose|i: int| #[trigger] sel.contains(i) && 0 <= i < cs.len() && cs[i].shard == v@[1];
            assert(w0 == i0 && w1 == i0);
            assert(v@[0] == v@[1]);
            assert(false);
        },
    }
}

} // verus!
