//! Cross-rank runtime delta analysis and divergence grouping.
//!
//! Runtimes are carried as integer nanoseconds; reported runtimes and
//! deltas are in microseconds, that is milliseconds to three decimal
//! places, rounded half away from zero.

use vstd::prelude::*;
use vstd::string::StringExecFns;
use vstd::multiset::Multiset;

verus! {

/// One operation of a compiled graph with its estimated runtime.
pub struct OpRuntime {
    pub name: String,
    pub estimated_runtime_ns: u64,
}

/// The estimated runtimes one rank reports for one graph.
pub struct GraphRuntime {
    pub rank: u32,
    pub graph: String,
    pub ops: Vec<OpRuntime>,
}

/// One rank's total runtime for one graph, in microseconds.
pub struct RuntimeRankDetail {
    pub rank: u32,
    pub runtime_us: u64,
}

/// Cross-rank comparison of one graph, aligned by positional index.
pub struct GraphAnalysis {
    pub graph_index: usize,
    pub graph_id: String,
    /// Difference between the slowest and fastest rank, in microseconds.
    pub delta_us: u64,
    /// Exactly two entries: the fastest rank, then the slowest rank.
    pub rank_details: Vec<RuntimeRankDetail>,
}

/// Result of the cross-rank runtime comparison.
pub struct RuntimeAnalysis {
    pub graphs: Vec<GraphAnalysis>,
    pub has_mismatched_graph_counts: bool,
}

/// Total estimated runtime of a graph: the sum of its ops' runtimes.
pub open spec fn spec_total_ns(ops: Seq<OpRuntime>) -> nat
    decreases ops.len(),
{
    if ops.len() == 0 {
        0
    } else {
        spec_total_ns(ops.drop_last()) + ops.last().estimated_runtime_ns as nat
    }
}

proof fn lemma_total_ns_bound(ops: Seq<OpRuntime>)
    ensures
        spec_total_ns(ops) <= ops.len() * u64::MAX,
    decreases ops.len(),
{
    if ops.len() == 0 {
    } else {
        lemma_total_ns_bound(ops.drop_last());
        assert((ops.len() - 1) * u64::MAX + u64::MAX == ops.len() * u64::MAX) by (nonlinear_arith);
    }
}

/// Nanoseconds to microseconds, rounded half away from zero.
pub open spec fn spec_ns_to_us(ns: nat) -> nat {
    (ns + 500) / 1000
}

/// A natural number clamped into `u64`.
pub open spec fn spec_sat_u64(n: nat) -> u64 {
    if n <= u64::MAX {
        n as u64
    } else {
        u64::MAX
    }
}

/// Sums the runtimes of a graph's ops.
pub fn total_ns(ops: &Vec<OpRuntime>) -> (r: u128)
    ensures
        r == spec_total_ns(ops@),
{
    let mut acc: u128 = 0;
    let mut i: usize = 0;
    while i < ops.len()
        invariant
            i <= ops@.len(),
            acc == spec_total_ns(ops@.subrange(0, i as int)),
        decreases ops@.len() - i,
    {
        proof {
            lemma_total_ns_bound(ops@.subrange(0, i as int));
            assert(i * u64::MAX + u64::MAX < u128::MAX) by (nonlinear_arith)
                requires
                    i < 0x1_0000_0000_0000_0000,
            ;
            assert(ops@.subrange(0, i + 1).drop_last() =~= ops@.subrange(0, i as int));
        }
        acc = acc + (ops[i].estimated_runtime_ns as u128);
        i = i + 1;
    }
    proof {
        assert(ops@.subrange(0, ops@.len() as int) =~= ops@);
    }
    acc
}

/// The (graph, total runtime) items one rank reports, in input order.
pub open spec fn items_for_rank(rt: Seq<GraphRuntime>, rank: u32) -> Seq<(Seq<char>, nat)>
    decreases rt.len(),
{
    if rt.len() == 0 {
        Seq::empty()
    } else {
        items_for_rank(rt.drop_last(), rank) + (if rt.last().rank == rank {
            seq![(rt.last().graph@, spec_total_ns(rt.last().ops@))]
        } else {
            Seq::empty()
        })
    }
}

/// The set of ranks that report at least one graph.
pub open spec fn spec_rank_set(rt: Seq<GraphRuntime>) -> Set<u32> {
    Set::new(|r: u32| exists|k: int| 0 <= k < rt.len() && (#[trigger] rt[k]).rank == r)
}

/// Whether two ranks report different numbers of graphs.
pub open spec fn spec_counts_mismatch(rt: Seq<GraphRuntime>) -> bool {
    exists|r1: u32, r2: u32|
        spec_rank_set(rt).contains(r1) && spec_rank_set(rt).contains(r2) && items_for_rank(
            rt,
            r1,
        ).len() != items_for_rank(rt, r2).len()
}

/// Left fold over (rank, total) pairs picking the minimum and maximum
/// total and the ranks achieving them; on equal totals the later pair
/// wins both.  Result: (min, max, fastest rank, slowest rank).
pub open spec fn spec_fold_minmax(totals: Seq<(u32, nat)>) -> (nat, nat, u32, u32)
    recommends
        totals.len() >= 1,
    decreases totals.len(),
{
    if totals.len() <= 1 {
        let (r, t) = totals[0];
        (t, t, r, r)
    } else {
        let (mn, mx, f, s) = spec_fold_minmax(totals.drop_last());
        let (r, t) = totals.last();
        (
            if t <= mn {
                t
            } else {
                mn
            },
            if t >= mx {
                t
            } else {
                mx
            },
            if t <= mn {
                r
            } else {
                f
            },
            if t >= mx {
                r
            } else {
                s
            },
        )
    }
}

/// One rank's bucket: the graphs it reported, with totals, in input order.
pub struct RankGraphs {
    pub rank: u32,
    pub items: Vec<(String, u128)>,
}

/// The mathematical contents of one bucket.
pub open spec fn view_items(items: Seq<(String, u128)>) -> Seq<(Seq<char>, nat)> {
    items.map_values(|p: (String, u128)| (p.0@, p.1 as nat))
}

/// Buckets hold exactly the per-rank items of `rt`, one bucket per
/// reporting rank, with pairwise distinct ranks.
pub open spec fn is_rank_buckets(rt: Seq<GraphRuntime>, b: Seq<RankGraphs>) -> bool {
    &&& forall|k: int|
        0 <= k < b.len() ==> view_items((#[trigger] b[k]).items@) == items_for_rank(rt, b[k].rank)
    &&& forall|k1: int, k2: int|
        0 <= k1 < k2 < b.len() ==> (#[trigger] b[k1]).rank != (#[trigger] b[k2]).rank
    &&& forall|k: int| 0 <= k < b.len() ==> spec_rank_set(rt).contains((#[trigger] b[k]).rank)
    &&& forall|r: u32| spec_rank_set(rt).contains(r) ==> exists|k: int|
        0 <= k < b.len() && (#[trigger] b[k]).rank == r
}

/// Adding one report extends the rank set by that report's rank.
proof fn lemma_rank_set_snoc(rt: Seq<GraphRuntime>)
    requires
        rt.len() >= 1,
    ensures
        spec_rank_set(rt) =~= spec_rank_set(rt.drop_last()).insert(rt.last().rank),
{
    let pre = rt.drop_last();
    assert forall|r: u32| spec_rank_set(rt).contains(r) implies spec_rank_set(pre).insert(
        rt.last().rank,
    ).contains(r) by {
        let k = choose|k: int| 0 <= k < rt.len() && (#[trigger] rt[k]).rank == r;
        if k < rt.len() - 1 {
            assert(pre[k].rank == r);
        }
    }
    assert forall|r: u32| spec_rank_set(pre).insert(rt.last().rank).contains(r)
        implies spec_rank_set(rt).contains(r) by {
        if r == rt.last().rank {
            assert(rt[rt.len() - 1].rank == r);
        } else {
            let k = choose|k: int| 0 <= k < pre.len() && (#[trigger] pre[k]).rank == r;
            assert(rt[k].rank == r);
        }
    }
}

/// Adding one report leaves other ranks' item lists unchanged.
proof fn lemma_items_snoc_other(rt: Seq<GraphRuntime>, r: u32)
    requires
        rt.len() >= 1,
        rt.last().rank != r,
    ensures
        items_for_rank(rt, r) == items_for_rank(rt.drop_last(), r),
{
    assert(items_for_rank(rt, r) =~= items_for_rank(rt.drop_last(), r));
}

/// A rank that reports nothing has an empty item list.
proof fn lemma_items_absent(rt: Seq<GraphRuntime>, r: u32)
    requires
        !spec_rank_set(rt).contains(r),
    ensures
        items_for_rank(rt, r) == Seq::<(Seq<char>, nat)>::empty(),
    decreases rt.len(),
{
    if rt.len() > 0 {
        assert(rt[rt.len() - 1].rank != r);
        assert forall|rr: u32| spec_rank_set(rt.drop_last()).contains(rr)
            implies spec_rank_set(rt).contains(rr) by {
            let k = choose|k: int|
                0 <= k < rt.drop_last().len() && (#[trigger] rt.drop_last()[k]).rank == rr;
            assert(rt[k].rank == rr);
        }
        lemma_items_absent(rt.drop_last(), r);
        assert(items_for_rank(rt, r) =~= Seq::<(Seq<char>, nat)>::empty());
    } else {
        assert(items_for_rank(rt, r) =~= Seq::<(Seq<char>, nat)>::empty());
    }
}

/// Groups the reported graphs by rank, preserving input order inside
/// each bucket.
fn bucket_by_rank(rt: &Vec<GraphRuntime>) -> (b: Vec<RankGraphs>)
    ensures
        is_rank_buckets(rt@, b@),
        (b@.len() == 0) == (rt@.len() == 0),
{
    let mut b: Vec<RankGraphs> = Vec::new();
    let mut i: usize = 0;
    while i < rt.len()
        invariant
            i <= rt@.len(),
            is_rank_buckets(rt@.subrange(0, i as int), b@),
            (b@.len() == 0) == (i == 0),
        decreases rt@.len() - i,
    {
        let ghost pre = rt@.subrange(0, i as int);
        let ghost post = rt@.subrange(0, i + 1);
        let ghost cur = rt@[i as int];
        proof {
            assert(post.drop_last() =~= pre);
            assert(post.last() == cur);
            lemma_rank_set_snoc(post);
            assert(items_for_rank(post, cur.rank) =~= items_for_rank(pre, cur.rank) + seq![
                (cur.graph@, spec_total_ns(cur.ops@)),
            ]);
            lemma_total_ns_bound(cur.ops@);
        }
        let rank = rt[i].rank;
        let graph = rt[i].graph.clone();
        let total = total_ns(&rt[i].ops);
        let mut j: usize = 0;
        let mut found = false;
        while j < b.len() && !found
            invariant
                j <= b@.len(),
                !found ==> forall|k: int| 0 <= k < j ==> (#[trigger] b@[k]).rank != rank,
                found ==> j < b@.len() && b@[j as int].rank == rank,
            decreases b@.len() - j + (if found {
                0int
            } else {
                1int
            }),
        {
            if b[j].rank == rank {
                found = true;
            } else {
                j = j + 1;
            }
        }
        if found {
            let ghost b0 = b@;
            let mut bucket = b.remove(j);
            bucket.items.push((graph, total));
            proof {
                assert(view_items(bucket.items@) =~= items_for_rank(post, rank));
            }
            b.insert(j, bucket);
            proof {
                assert(b@ =~= b0.update(j as int, bucket));
                assert forall|k: int| 0 <= k < b@.len() implies view_items(
                    (#[trigger] b@[k]).items@,
                ) == items_for_rank(post, b@[k].rank) by {
                    if k != j {
                        assert(b@[k] == b0[k]);
                        assert(b@[k].rank != rank);
                        lemma_items_snoc_other(post, b@[k].rank);
                    }
                }
                assert forall|r2: u32| spec_rank_set(post).contains(r2) implies exists|k: int|
                    0 <= k < b@.len() && (#[trigger] b@[k]).rank == r2 by {
                    if r2 == rank {
                        assert(b@[j as int].rank == r2);
                    } else {
                        assert(spec_rank_set(pre).contains(r2));
                        let k = choose|k: int| 0 <= k < b0.len() && (#[trigger] b0[k]).rank == r2;
                        assert(b@[k].rank == r2);
                    }
                }
            }
        } else {
            let ghost b0 = b@;
            let mut items: Vec<(String, u128)> = Vec::new();
            items.push((graph, total));
            b.push(RankGraphs { rank, items });
            proof {
                assert(!spec_rank_set(pre).contains(rank));
                lemma_items_absent(pre, rank);
                assert(view_items(b@.last().items@) =~= items_for_rank(post, rank));
                assert forall|k: int| 0 <= k < b@.len() - 1 implies view_items(
                    (#[trigger] b@[k]).items@,
                ) == items_for_rank(post, b@[k].rank) by {
                    assert(b@[k] == b0[k]);
                    assert(b@[k].rank != rank);
                    lemma_items_snoc_other(post, b@[k].rank);
                }
                assert forall|r2: u32| spec_rank_set(post).contains(r2) implies exists|k: int|
                    0 <= k < b@.len() && (#[trigger] b@[k]).rank == r2 by {
                    if r2 == rank {
                        assert(b@[b@.len() - 1].rank == r2);
                    } else {
                        assert(spec_rank_set(pre).contains(r2));
                        let k = choose|k: int| 0 <= k < b0.len() && (#[trigger] b0[k]).rank == r2;
                        assert(b@[k].rank == r2);
                    }
                }
            }
        }
        i = i + 1;
    }
    proof {
        assert(rt@.subrange(0, rt@.len() as int) =~= rt@);
    }
    b
}

/// Ascending order over `u32` sequences.
pub open spec fn sorted_u32(s: Seq<u32>) -> bool {
    forall|i: int, j: int| 0 <= i < j < s.len() ==> s[i] <= s[j]
}

/// Pairwise distinct `u32` sequences.
pub open spec fn distinct_u32(s: Seq<u32>) -> bool {
    forall|i: int, j: int| 0 <= i < j < s.len() ==> s[i] != s[j]
}

/// Sorts distinct `u32` values ascending, keeping exactly the same values.
pub fn sort_u32(v: Vec<u32>) -> (r: Vec<u32>)
    ensures
        sorted_u32(r@),
        r@.to_multiset() == v@.to_multiset(),
        r@.len() == v@.len(),
        forall|x: u32| r@.contains(x) == v@.contains(x),
{
    let mut r: Vec<u32> = Vec::new();
    let mut i: usize = 0;
    proof {
        assert(v@.subrange(0, 0) =~= Seq::<u32>::empty());
        assert(r@.to_multiset() =~= v@.subrange(0, 0).to_multiset());
    }
    while i < v.len()
        invariant
            i <= v@.len(),
            sorted_u32(r@),
            r@.to_multiset() == v@.subrange(0, i as int).to_multiset(),
            r@.len() == i,
        decreases v@.len() - i,
    {
        let x = v[i];
        let mut j: usize = r.len();
        while j > 0 && r[j - 1] > x
            invariant
                j <= r@.len(),
                forall|k: int| j <= k < r@.len() ==> r@[k] > x,
            decreases j,
        {
            j = j - 1;
        }
        let ghost r0 = r@;
        r.insert(j, x);
        proof {
            broadcast use vstd::seq_lib::group_to_multiset_ensures;
            broadcast use vstd::multiset::group_multiset_axioms;

            assert(r@ =~= (r0.subrange(0, j as int).push(x)) + r0.subrange(
                j as int,
                r0.len() as int,
            ));
            vstd::seq_lib::lemma_multiset_commutative(
                r0.subrange(0, j as int).push(x),
                r0.subrange(j as int, r0.len() as int),
            );
            vstd::seq_lib::lemma_multiset_commutative(r0.subrange(0, j as int), r0.subrange(
                j as int,
                r0.len() as int,
            ));
            assert(r0.subrange(0, j as int) + r0.subrange(j as int, r0.len() as int) =~= r0);
            assert(r@.to_multiset() =~= r0.to_multiset().insert(x));
            assert(v@.subrange(0, i + 1).drop_last() =~= v@.subrange(0, i as int));
            assert(v@.subrange(0, i + 1) =~= v@.subrange(0, i as int).push(v@[i as int]));
            assert(r@.to_multiset() =~= v@.subrange(0, i + 1).to_multiset());
        }
        i = i + 1;
    }
    proof {
        broadcast use vstd::seq_lib::group_to_multiset_ensures;

        assert(v@.subrange(0, v@.len() as int) =~= v@);
        assert forall|x: u32| r@.contains(x) == v@.contains(x) by {
            broadcast use vstd::seq_lib::group_to_multiset_ensures;

            assert(r@.to_multiset() == v@.to_multiset());
            assert(r@.contains(x) <==> r@.to_multiset().count(x) > 0);
            assert(v@.contains(x) <==> v@.to_multiset().count(x) > 0);
        }
    }
    r
}

/// Lexicographic order over character sequences; code-point order agrees
/// with byte order of the UTF-8 encodings.
pub open spec fn spec_lex_le(a: Seq<char>, b: Seq<char>) -> bool
    decreases a.len(),
{
    if a.len() == 0 {
        true
    } else if b.len() == 0 {
        false
    } else if a[0] != b[0] {
        (a[0] as int) < (b[0] as int)
    } else {
        spec_lex_le(a.drop_first(), b.drop_first())
    }
}

/// Lexicographic comparison of two character vectors.
pub fn lex_le_chars(a: &Vec<char>, b: &Vec<char>, ai: usize, bi: usize) -> (r: bool)
    requires
        ai <= a@.len(),
        bi <= b@.len(),
    ensures
        r == spec_lex_le(a@.subrange(ai as int, a@.len() as int), b@.subrange(
            bi as int,
            b@.len() as int,
        )),
    decreases a@.len() - ai,
{
    let ghost sa = a@.subrange(ai as int, a@.len() as int);
    let ghost sb = b@.subrange(bi as int, b@.len() as int);
    if ai == a.len() {
        proof {
            assert(sa.len() == 0);
        }
        return true;
    }
    if bi == b.len() {
        proof {
            assert(sa.len() > 0 && sb.len() == 0);
        }
        return false;
    }
    let ca = a[ai];
    let cb = b[bi];
    proof {
        assert(sa[0] == a@[ai as int]);
        assert(sb[0] == b@[bi as int]);
    }
    if ca != cb {
        let r = ca < cb;
        proof {
            assert(r == ((sa[0] as int) < (sb[0] as int)));
        }
        return r;
    }
    let r = lex_le_chars(a, b, ai + 1, bi + 1);
    proof {
        assert(sa.drop_first() =~= a@.subrange(ai + 1, a@.len() as int));
        assert(sb.drop_first() =~= b@.subrange(bi + 1, b@.len() as int));
    }
    r
}

/// Lexicographic comparison of two strings by characters.
pub fn str_lex_le(a: &str, b: &str) -> (r: bool)
    ensures
        r == spec_lex_le(a@, b@),
{
    let av = crate::strutil::str_chars(a);
    let bv = crate::strutil::str_chars(b);
    let r = lex_le_chars(&av, &bv, 0, 0);
    proof {
        assert(av@.subrange(0, av@.len() as int) =~= a@);
        assert(bv@.subrange(0, bv@.len() as int) =~= b@);
    }
    r
}

pub proof fn lemma_lex_le_total(a: Seq<char>, b: Seq<char>)
    ensures
        spec_lex_le(a, b) || spec_lex_le(b, a),
    decreases a.len(),
{
    if a.len() != 0 && b.len() != 0 && a[0] == b[0] {
        lemma_lex_le_total(a.drop_first(), b.drop_first());
    }
}

/// The sorted ranks (smallest first), the per-index totals, and the
/// per-graph analysis a correct comparison must produce.
pub open spec fn spec_totals_at(rt: Seq<GraphRuntime>, ranks: Seq<u32>, i: int) -> Seq<(u32, nat)> {
    Seq::new(ranks.len(), |j: int| (ranks[j], items_for_rank(rt, ranks[j])[i].1))
}

/// Field-wise description of the analysis of graph index `i`:
/// `(graph id, delta_us, fastest rank, fastest us, slowest rank, slowest us)`.
pub open spec fn spec_analysis_at(rt: Seq<GraphRuntime>, ranks: Seq<u32>, i: int) -> (
    Seq<char>,
    u64,
    u32,
    u64,
    u32,
    u64,
) {
    let totals = spec_totals_at(rt, ranks, i);
    let (mn, mx, fast, slow) = spec_fold_minmax(totals);
    (
        items_for_rank(rt, ranks[0])[i].0,
        spec_sat_u64(spec_ns_to_us((mx - mn) as nat)),
        fast,
        spec_sat_u64(spec_ns_to_us(mn)),
        slow,
        spec_sat_u64(spec_ns_to_us(mx)),
    )
}

/// `ranks` is the ascending list of exactly the ranks reporting in `rt`.
pub open spec fn is_sorted_ranks_of(rt: Seq<GraphRuntime>, ranks: Seq<u32>) -> bool {
    &&& sorted_u32(ranks)
    &&& distinct_u32(ranks)
    &&& forall|r: u32| ranks.contains(r) == spec_rank_set(rt).contains(r)
}

/// One `GraphAnalysis` record carries the fields `spec_analysis_at` gives
/// for its `graph_index`.
pub open spec fn analysis_matches(
    rt: Seq<GraphRuntime>,
    ranks: Seq<u32>,
    g: GraphAnalysis,
    n: nat,
) -> bool {
    let (gid, delta, fast, fast_us, slow, slow_us) = spec_analysis_at(
        rt,
        ranks,
        g.graph_index as int,
    );
    &&& g.graph_index < n
    &&& g.graph_id@ == gid
    &&& g.delta_us == delta
    &&& g.rank_details@.len() == 2
    &&& g.rank_details@[0].rank == fast
    &&& g.rank_details@[0].runtime_us == fast_us
    &&& g.rank_details@[1].rank == slow
    &&& g.rank_details@[1].runtime_us == slow_us
}

/// Nanoseconds to microseconds, rounded half away from zero and clamped
/// into `u64`.
fn ns_to_us_sat(x: u128) -> (r: u64)
    ensures
        r == spec_sat_u64(spec_ns_to_us(x as nat)),
{
    let q = x / 1000;
    let rem = x % 1000;
    proof {
        vstd::arithmetic::div_mod::lemma_fundamental_div_mod(x as int, 1000);
        if x > 0 {
            vstd::arithmetic::div_mod::lemma_div_is_strictly_smaller(x as int, 1000);
        }
    }
    let rounded: u128 = if rem >= 500 {
        q + 1
    } else {
        q
    };
    proof {
        if rem >= 500 {
            assert((x + 500) as int == (q as int + 1) * 1000 + (rem as int - 500)) by (nonlinear_arith)
                requires
                    x as int == 1000 * (q as int) + rem as int,
            ;
            vstd::arithmetic::div_mod::lemma_fundamental_div_mod_converse_div(
                (x + 500) as int,
                1000,
                q as int + 1,
                rem as int - 500,
            );
        } else {
            assert((x + 500) as int == (q as int) * 1000 + (rem as int + 500)) by (nonlinear_arith)
                requires
                    x as int == 1000 * (q as int) + rem as int,
            ;
            vstd::arithmetic::div_mod::lemma_fundamental_div_mod_converse_div(
                (x + 500) as int,
                1000,
                q as int,
                rem as int + 500,
            );
        }
        assert(rounded == spec_ns_to_us(x as nat));
    }
    if rounded > (u64::MAX as u128) {
        u64::MAX
    } else {
        rounded as u64
    }
}

/// Groups the input per rank and checks that every rank reports the same
/// number of graphs; `None` when the input is empty or the counts differ.
fn prepare_and_validate_graphs(rt: &Vec<GraphRuntime>) -> (r: Option<
    (Vec<RankGraphs>, Vec<u32>, usize),
>)
    ensures
        (r is None) == (rt@.len() == 0 || spec_counts_mismatch(rt@)),
        r matches Some(t) ==> {
            &&& is_rank_buckets(rt@, t.0@)
            &&& is_sorted_ranks_of(rt@, t.1@)
            &&& t.1@.len() == t.0@.len()
            &&& t.1@.len() >= 1
            &&& forall|r2: u32|
                spec_rank_set(rt@).contains(r2) ==> #[trigger] items_for_rank(rt@, r2).len()
                    == t.2 as nat
        },
{
    let b = bucket_by_rank(rt);
    if b.len() == 0 {
        return None;
    }
    let n = b[0].items.len();
    let mut k: usize = 1;
    while k < b.len()
        invariant
            1 <= k <= b@.len(),
            n == b@[0].items@.len(),
            forall|j: int| 0 <= j < k ==> (#[trigger] b@[j]).items@.len() == n,
            is_rank_buckets(rt@, b@),
        decreases b@.len() - k,
    {
        if b[k].items.len() != n {
            proof {
                assert(view_items(b@[k as int].items@).len() == b@[k as int].items@.len());
                assert(view_items(b@[0].items@).len() == b@[0].items@.len());
                assert(items_for_rank(rt@, b@[k as int].rank).len() != items_for_rank(
                    rt@,
                    b@[0].rank,
                ).len());
                assert(spec_counts_mismatch(rt@));
            }
            return None;
        }
        k = k + 1;
    }
    proof {
        assert forall|r1: u32, r2: u32|
            spec_rank_set(rt@).contains(r1) && spec_rank_set(rt@).contains(
                r2,
            ) implies #[trigger] items_for_rank(rt@, r1).len() == #[trigger] items_for_rank(
            rt@,
            r2,
        ).len() by {
            let k1 = choose|k1: int| 0 <= k1 < b@.len() && (#[trigger] b@[k1]).rank == r1;
            let k2 = choose|k2: int| 0 <= k2 < b@.len() && (#[trigger] b@[k2]).rank == r2;
            assert(view_items(b@[k1].items@).len() == items_for_rank(rt@, r1).len());
            assert(view_items(b@[k2].items@).len() == items_for_rank(rt@, r2).len());
        }
        assert(!spec_counts_mismatch(rt@));
    }
    let mut rank_vec: Vec<u32> = Vec::new();
    let mut k2: usize = 0;
    while k2 < b.len()
        invariant
            k2 <= b@.len(),
            rank_vec@.len() == k2,
            forall|j: int| 0 <= j < k2 ==> rank_vec@[j] == (#[trigger] b@[j]).rank,
            is_rank_buckets(rt@, b@),
        decreases b@.len() - k2,
    {
        rank_vec.push(b[k2].rank);
        k2 = k2 + 1;
    }
    proof {
        assert forall|x: u32| rank_vec@.contains(x) == spec_rank_set(rt@).contains(x) by {
            if rank_vec@.contains(x) {
                let j = choose|j: int| 0 <= j < rank_vec@.len() && rank_vec@[j] == x;
                assert(b@[j].rank == x);
            }
            if spec_rank_set(rt@).contains(x) {
                let j = choose|j: int| 0 <= j < b@.len() && (#[trigger] b@[j]).rank == x;
                assert(rank_vec@[j] == x);
            }
        }
        assert forall|i: int, j: int| 0 <= i < j < rank_vec@.len() implies rank_vec@[i]
            != rank_vec@[j] by {
            assert(b@[i].rank != b@[j].rank);
        }
    }
    let ghost rv0 = rank_vec@;
    let ranks = sort_u32(rank_vec);
    proof {
        assert forall|i: int, j: int| 0 <= i < j < ranks@.len() implies ranks@[i] != ranks@[j] by {
            broadcast use vstd::seq_lib::group_to_multiset_ensures;

            if ranks@[i] == ranks@[j] {
                let s = ranks@;
                assert(s.remove(j).to_multiset() =~= s.to_multiset().remove(s[j]));
                assert(s.remove(j)[i] == s[i]);
                assert(s.remove(j).contains(s[i]));
                assert(s.remove(j).to_multiset().count(s[i]) > 0);
                assert(s.to_multiset().count(s[i]) >= 2);
                assert(rv0.to_multiset().count(s[i]) >= 2);
                lemma_count_two_distinct(rv0, s[i]);
            }
        }
    }
    Some((b, ranks, n))
}

/// Antisymmetry of the lexicographic order.
pub proof fn lemma_lex_le_antisym(a: Seq<char>, b: Seq<char>)
    requires
        spec_lex_le(a, b),
        spec_lex_le(b, a),
    ensures
        a == b,
    decreases a.len(),
{
    if a.len() == 0 {
        assert(b.len() == 0);
        assert(a =~= b);
    } else {
        assert(b.len() > 0);
        assert(a[0] == b[0]);
        lemma_lex_le_antisym(a.drop_first(), b.drop_first());
        assert(a =~= seq![a[0]] + a.drop_first());
        assert(b =~= seq![b[0]] + b.drop_first());
        assert(a =~= b);
    }
}

/// Transitivity of the lexicographic order.
pub proof fn lemma_lex_le_trans(a: Seq<char>, b: Seq<char>, c: Seq<char>)
    requires
        spec_lex_le(a, b),
        spec_lex_le(b, c),
    ensures
        spec_lex_le(a, c),
    decreases a.len(),
{
    if a.len() > 0 {
        assert(b.len() > 0);
        assert(c.len() > 0);
        if a[0] == b[0] && b[0] == c[0] {
            lemma_lex_le_trans(a.drop_first(), b.drop_first(), c.drop_first());
        }
    }
}

/// The items of the bucket that carries a given rank.
fn find_bucket<'a>(b: &'a Vec<RankGraphs>, rank: u32, Ghost(rt): Ghost<Seq<GraphRuntime>>) -> (it:
    &'a Vec<(String, u128)>)
    requires
        is_rank_buckets(rt, b@),
        spec_rank_set(rt).contains(rank),
    ensures
        view_items(it@) == items_for_rank(rt, rank),
{
    let mut j: usize = 0;
    while j < b.len()
        invariant
            j <= b@.len(),
            forall|k: int| 0 <= k < j ==> (#[trigger] b@[k]).rank != rank,
            is_rank_buckets(rt, b@),
            spec_rank_set(rt).contains(rank),
        decreases b@.len() - j,
    {
        if b[j].rank == rank {
            return &b[j].items;
        }
        j = j + 1;
    }
    proof {
        let k = choose|k: int| 0 <= k < b@.len() && (#[trigger] b@[k]).rank == rank;
        assert(false);
    }
    &b[0].items
}

/// Compares the per-rank totals graph index by graph index.
fn compare_graph_runtimes(
    b: &Vec<RankGraphs>,
    ranks: &Vec<u32>,
    n: usize,
    Ghost(rt): Ghost<Seq<GraphRuntime>>,
) -> (r: Vec<GraphAnalysis>)
    requires
        is_rank_buckets(rt, b@),
        is_sorted_ranks_of(rt, ranks@),
        ranks@.len() >= 1,
        forall|r2: u32|
            spec_rank_set(rt).contains(r2) ==> #[trigger] items_for_rank(rt, r2).len() == n as nat,
    ensures
        r@.len() == n as nat,
        forall|i: int| 0 <= i < n ==> (#[trigger] r@[i]).graph_index == i,
        forall|i: int| 0 <= i < n ==> analysis_matches(rt, ranks@, #[trigger] r@[i], n as nat),
{
    let mut out: Vec<GraphAnalysis> = Vec::new();
    let mut i: usize = 0;
    proof {
        assert(ranks@.contains(ranks@[0]));
    }
    while i < n
        invariant
            i <= n,
            out@.len() == i,
            forall|k: int| 0 <= k < i ==> (#[trigger] out@[k]).graph_index == k,
            forall|k: int| 0 <= k < i ==> analysis_matches(rt, ranks@, #[trigger] out@[k], n as nat),
            is_rank_buckets(rt, b@),
            is_sorted_ranks_of(rt, ranks@),
            ranks@.len() >= 1,
            forall|r2: u32|
                spec_rank_set(rt).contains(r2) ==> #[trigger] items_for_rank(rt, r2).len()
                    == n as nat,
        decreases n - i,
    {
        let ghost totals = spec_totals_at(rt, ranks@, i as int);
        proof {
            assert(ranks@.contains(ranks@[0]));
            assert(spec_rank_set(rt).contains(ranks@[0]));
        }
        let it0 = find_bucket(b, ranks[0], Ghost(rt));
        proof {
            assert(view_items(it0@).len() == it0@.len());
        }
        let graph_id = it0[i].0.clone();
        let t0 = it0[i].1;
        proof {
            assert(view_items(it0@)[i as int] == (it0@[i as int].0@, it0@[i as int].1 as nat));
            assert(totals[0] == (ranks@[0], items_for_rank(rt, ranks@[0])[i as int].1));
            assert(totals.subrange(0, 1).len() == 1);
            assert(totals.subrange(0, 1)[0] == totals[0]);
        }
        let mut mn: u128 = t0;
        let mut mx: u128 = t0;
        let mut fast: u32 = ranks[0];
        let mut slow: u32 = ranks[0];
        let mut j: usize = 1;
        while j < ranks.len()
            invariant
                1 <= j <= ranks@.len(),
                i < n,
                totals == spec_totals_at(rt, ranks@, i as int),
                is_rank_buckets(rt, b@),
                is_sorted_ranks_of(rt, ranks@),
                forall|r2: u32|
                    spec_rank_set(rt).contains(r2) ==> #[trigger] items_for_rank(rt, r2).len()
                        == n as nat,
                mn <= mx,
                (mn as nat, mx as nat, fast, slow) == spec_fold_minmax(
                    totals.subrange(0, j as int),
                ),
            decreases ranks@.len() - j,
        {
            proof {
                assert(ranks@.contains(ranks@[j as int]));
                assert(spec_rank_set(rt).contains(ranks@[j as int]));
            }
            let itj = find_bucket(b, ranks[j], Ghost(rt));
            proof {
                assert(view_items(itj@).len() == itj@.len());
                assert(view_items(itj@)[i as int] == (itj@[i as int].0@, itj@[i as int].1 as nat));
            }
            let t = itj[i].1;
            proof {
                assert(totals[j as int] == (ranks@[j as int], items_for_rank(
                    rt,
                    ranks@[j as int],
                )[i as int].1));
                assert(totals.subrange(0, j + 1).drop_last() =~= totals.subrange(0, j as int));
                assert(totals.subrange(0, j + 1).last() == totals[j as int]);
            }
            if t <= mn {
                mn = t;
                fast = ranks[j];
            }
            if t >= mx {
                mx = t;
                slow = ranks[j];
            }
            j = j + 1;
        }
        proof {
            assert(totals.subrange(0, ranks@.len() as int) =~= totals);
        }
        let delta_us = ns_to_us_sat(mx - mn);
        let fast_us = ns_to_us_sat(mn);
        let slow_us = ns_to_us_sat(mx);
        let mut rank_details: Vec<RuntimeRankDetail> = Vec::new();
        rank_details.push(RuntimeRankDetail { rank: fast, runtime_us: fast_us });
        rank_details.push(RuntimeRankDetail { rank: slow, runtime_us: slow_us });
        let g = GraphAnalysis { graph_index: i, graph_id, delta_us, rank_details };
        out.push(g);
        i = i + 1;
    }
    out
}

/// Sorts the analyses by graph id, lexicographically.
fn sort_analyses(
    v: Vec<GraphAnalysis>,
    Ghost(rt): Ghost<Seq<GraphRuntime>>,
    Ghost(ranks): Ghost<Seq<u32>>,
) -> (r: Vec<GraphAnalysis>)
    requires
        forall|k: int|
            0 <= k < v@.len() ==> analysis_matches(rt, ranks, #[trigger] v@[k], v@.len() as nat),
        forall|k: int| 0 <= k < v@.len() ==> (#[trigger] v@[k]).graph_index == k,
    ensures
        r@.len() == v@.len(),
        forall|k: int|
            0 <= k < r@.len() ==> analysis_matches(rt, ranks, #[trigger] r@[k], v@.len() as nat),
        forall|k1: int, k2: int|
            0 <= k1 < k2 < r@.len() ==> (#[trigger] r@[k1]).graph_index != (
            #[trigger] r@[k2]).graph_index,
        forall|k1: int, k2: int|
            0 <= k1 < k2 < r@.len() ==> spec_lex_le(
                (#[trigger] r@[k1]).graph_id@,
                (#[trigger] r@[k2]).graph_id@,
            ),
{
    let ghost total = v@.len() as nat;
    let mut v = v;
    let mut out: Vec<GraphAnalysis> = Vec::new();
    let mut i: usize = 0;
    let n = v.len();
    while i < n
        invariant
            i <= n,
            n as nat == total,
            v@.len() == n - i,
            forall|k: int| 0 <= k < v@.len() ==> (#[trigger] v@[k]).graph_index == k + i,
            forall|k: int| 0 <= k < v@.len() ==> analysis_matches(rt, ranks, #[trigger] v@[k], total),
            out@.len() == i,
            forall|k: int| 0 <= k < out@.len() ==> (#[trigger] out@[k]).graph_index < i,
            forall|k: int| 0 <= k < out@.len() ==> analysis_matches(rt, ranks, #[trigger] out@[k], total),
            forall|k1: int, k2: int|
                0 <= k1 < k2 < out@.len() ==> (#[trigger] out@[k1]).graph_index != (
                #[trigger] out@[k2]).graph_index,
            forall|k1: int, k2: int|
                0 <= k1 < k2 < out@.len() ==> spec_lex_le(
                    (#[trigger] out@[k1]).graph_id@,
                    (#[trigger] out@[k2]).graph_id@,
                ),
        decreases n - i,
    {
        let x = v.remove(0);
        proof {
            assert(x.graph_index == i);
        }
        let mut j: usize = out.len();
        while j > 0 && !str_lex_le(out[j - 1].graph_id.as_str(), x.graph_id.as_str())
            invariant
                j <= out@.len(),
                forall|k: int|
                    j <= k < out@.len() ==> !spec_lex_le(
                        (#[trigger] out@[k]).graph_id@,
                        x.graph_id@,
                    ),
                forall|k1: int, k2: int|
                    0 <= k1 < k2 < out@.len() ==> spec_lex_le(
                        (#[trigger] out@[k1]).graph_id@,
                        (#[trigger] out@[k2]).graph_id@,
                    ),
            decreases j,
        {
            j = j - 1;
        }
        let ghost o0 = out@;
        out.insert(j, x);
        proof {
            assert(out@ == o0.insert(j as int, x));
            assert forall|k: int| j < k < out@.len() implies spec_lex_le(
                x.graph_id@,
                (#[trigger] out@[k]).graph_id@,
            ) by {
                assert(out@[k] == o0[k - 1]);
                lemma_lex_le_total(o0[k - 1].graph_id@, x.graph_id@);
            }
            assert forall|k: int| 0 <= k < j implies spec_lex_le(
                (#[trigger] out@[k]).graph_id@,
                x.graph_id@,
            ) by {
                assert(out@[k] == o0[k]);
                assert(spec_lex_le(o0[j - 1].graph_id@, x.graph_id@));
                if k < j - 1 {
                    assert(spec_lex_le(o0[k].graph_id@, o0[j - 1].graph_id@));
                    lemma_lex_le_trans(o0[k].graph_id@, o0[j - 1].graph_id@, x.graph_id@);
                }
            }
        }
        i = i + 1;
    }
    out
}

/// The per-graph entries are exactly the comparisons of `rt` aligned on
/// the sorted rank list `ranks`: one entry per graph index, pairwise
/// distinct indices, ordered by graph id.
pub open spec fn is_complete_analysis(
    rt: Seq<GraphRuntime>,
    ranks: Seq<u32>,
    graphs: Seq<GraphAnalysis>,
) -> bool {
    &&& ranks.len() >= 1
    &&& graphs.len() == items_for_rank(rt, ranks[0]).len()
    &&& (forall|k: int|
        0 <= k < graphs.len() ==> analysis_matches(rt, ranks, #[trigger] graphs[k], graphs.len() as nat))
    &&& (forall|k1: int, k2: int|
        0 <= k1 < k2 < graphs.len() ==> (#[trigger] graphs[k1]).graph_index != (
        #[trigger] graphs[k2]).graph_index)
    &&& (forall|k1: int, k2: int|
        0 <= k1 < k2 < graphs.len() ==> spec_lex_le(
            (#[trigger] graphs[k1]).graph_id@,
            (#[trigger] graphs[k2]).graph_id@,
        ))
}

/// Compares per-rank, per-graph estimated runtimes across ranks.
///
/// Every rank must report the same number of graphs; when the counts
/// differ (or nothing was reported), the result is flagged
/// `has_mismatched_graph_counts` and carries no per-graph entries, since
/// aligning graphs by positional index would be meaningless.  Otherwise
/// one entry per graph index reports the fastest and slowest rank and
/// their delta; on equal totals the later rank in ascending rank order
/// wins both.  Entries are ordered by graph id for deterministic output.
pub fn analyze_graph_runtime_deltas(runtime_estimations: &Vec<GraphRuntime>) -> (res: Option<
    RuntimeAnalysis,
>)
    ensures
        res is Some,
        res matches Some(ra) ==> {
            &&& ra.has_mismatched_graph_counts == (runtime_estimations@.len() == 0
                || spec_counts_mismatch(runtime_estimations@))
            &&& (ra.has_mismatched_graph_counts ==> ra.graphs@.len() == 0)
            &&& (!ra.has_mismatched_graph_counts ==> exists|ranks: Seq<u32>|
                #[trigger] is_sorted_ranks_of(runtime_estimations@, ranks) && is_complete_analysis(
                    runtime_estimations@,
                    ranks,
                    ra.graphs@,
                ))
        },
{
    match prepare_and_validate_graphs(runtime_estimations) {
        None => Some(RuntimeAnalysis { graphs: Vec::new(), has_mismatched_graph_counts: true }),
        Some((b, ranks, n)) => {
            let graphs0 = compare_graph_runtimes(&b, &ranks, n, Ghost(runtime_estimations@));
            let graphs = sort_analyses(graphs0, Ghost(runtime_estimations@), Ghost(ranks@));
            proof {
                assert(ranks@.contains(ranks@[0]));
                assert(spec_rank_set(runtime_estimations@).contains(ranks@[0]));
                assert(is_sorted_ranks_of(runtime_estimations@, ranks@));
            }
            Some(RuntimeAnalysis { graphs, has_mismatched_graph_counts: false })
        },
    }
}

/// A multiset count of two forces two distinct positions.
proof fn lemma_count_two_distinct(s: Seq<u32>, x: u32)
    requires
        s.to_multiset().count(x) >= 2,
    ensures
        exists|i: int, j: int| 0 <= i < j < s.len() && s[i] == x && s[j] == x,
    decreases s.len(),
{
    broadcast use vstd::seq_lib::group_to_multiset_ensures;

    assert(s.len() >= 1) by {
        if s.len() == 0 {
            assert(s.to_multiset() =~= Multiset::<u32>::empty());
        }
    }
    let last = s.len() - 1;
    assert(s =~= s.drop_last().push(s[last]));
    assert(s.to_multiset() =~= s.drop_last().to_multiset().insert(s[last]));
    if s[last] == x {
        if s.drop_last().to_multiset().count(x) >= 1 {
            assert(s.drop_last().contains(x));
            let i = choose|i: int| 0 <= i < s.drop_last().len() && s.drop_last()[i] == x;
            assert(s[i] == x);
            assert(0 <= i < last && s[i] == x && s[last] == x);
        } else {
            assert(s.to_multiset().count(x) == s.drop_last().to_multiset().count(x) + 1);
            assert(false);
        }
    } else {
        assert(s.drop_last().to_multiset().count(x) >= 2);
        lemma_count_two_distinct(s.drop_last(), x);
        let (i, j) = choose|i: int, j: int|
            0 <= i < j < s.drop_last().len() && s.drop_last()[i] == x && s.drop_last()[j] == x;
        assert(s[i] == x && s[j] == x);
    }
}

} // verus!

