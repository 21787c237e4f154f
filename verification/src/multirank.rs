//! Cross-rank signature assembly and the merged runtime trace.
//!
//! After every rank's directory has been materialized, the per-rank side
//! files are read back (by the caller) and their contents are distilled
//! here into comparable signatures: the compile-id set, the cache
//! sequence, the collective-operation sequence per rank, and the
//! tensor-metadata fingerprint; the generic grouping then reports
//! divergence.

use vstd::prelude::*;
use std::hash::Hash;
use std::hash::Hasher;
use vstd::string::StringExecFns;
use vstd::string::StrSliceExecFns;
use crate::analysis::GraphRuntime;
use crate::analysis::RuntimeAnalysis;
use crate::analysis::sort_u32;
use crate::divergence::DivergenceGroup;
use crate::json::Jv;
use crate::json::jmodel;
use crate::json::json_parse;
use crate::json::object_keys;
use crate::json::value_get;
use crate::json::value_as_str;
use crate::json::value_as_u64;
use crate::json::value_array_len;
use crate::json::value_array_get;
use crate::strutil::str_eq;
use crate::strutil::str_starts_with;
use crate::strutil::u64_to_string;

verus! {

/// What one rank's materialized directory distills to.
pub struct RankMetaData {
    pub rank: u32,
    /// The compile ids seen, excluding synthetic unknown buckets.
    pub compile_ids: Vec<String>,
    /// The status suffixes of the rank's artifacts, ordered by sequence
    /// number and concatenated.
    pub cache_sequence: String,
}

/// The collective operations one rank observed for one graph.
pub struct CollectiveSchedule {
    pub rank: u32,
    pub graph: String,
    pub ops: Vec<String>,
}

/// The canonical-JSON fingerprint of one graph's tensor metadata.
pub struct TensorMetaFingerprint {
    pub rank: u32,
    pub graph: String,
    pub fingerprint: String,
}

pub struct DivergenceFlags {
    pub cache: bool,
    pub collective: bool,
    pub tensor_meta: bool,
}

pub struct ArtifactFlags {
    pub runtime_trace: bool,
}

/// The cross-rank diagnostics handed to the report renderer.
pub struct Diagnostics {
    pub divergence: DivergenceFlags,
    pub artifacts: ArtifactFlags,
    pub analysis: Option<RuntimeAnalysis>,
    pub cache_groups: Vec<DivergenceGroup>,
    pub collective_groups: Vec<DivergenceGroup>,
    pub tensor_meta_groups: Vec<DivergenceGroup>,
}

/// One duration event of the merged runtime trace.
pub struct RuntimeTraceEvent {
    pub name: String,
    pub ts_us: u64,
    pub dur_us: u64,
    pub pid: u32,
    pub tid: u32,
    pub graph: String,
    pub rank: u32,
    pub runtime_ns: u64,
}

/// One metadata event of the merged runtime trace: a process or thread
/// label with its sort index.
pub struct TraceMeta {
    pub pid: u32,
    pub tid: Option<u32>,
    pub label: String,
    pub sort_index: u64,
}

/// A synthetic unknown-bucket key.
pub open spec fn spec_is_unknown_key(k: Seq<char>) -> bool {
    k == "unknown"@ || crate::strutil::spec_starts_with(k, "unknown_"@)
}

/// The keys that name real compile ids, in object order.
pub open spec fn spec_nonunknown(keys: Seq<Seq<char>>) -> Seq<Seq<char>>
    decreases keys.len(),
{
    if keys.len() == 0 {
        Seq::empty()
    } else {
        spec_nonunknown(keys.drop_last()) + (if spec_is_unknown_key(keys.last()) {
            Seq::empty()
        } else {
            seq![keys.last()]
        })
    }
}

/// The (sequence number, suffix) pairs of an artifact array: one pair
/// per element carrying a non-empty string suffix and an integer number.
pub open spec fn spec_art_entries(xs: Seq<Jv>) -> Seq<(u64, Seq<char>)>
    decreases xs.len(),
{
    if xs.len() == 0 {
        Seq::empty()
    } else {
        spec_art_entries(xs.drop_last()) + (match crate::json::jv_get(xs.last(), "suffix"@) {
            Some(Jv::Str(sfx)) => if sfx.len() > 0 {
                match crate::json::jv_get(xs.last(), "number"@) {
                    Some(Jv::UInt(n)) => seq![(n, sfx)],
                    _ => Seq::empty(),
                }
            } else {
                Seq::empty()
            },
            _ => Seq::empty(),
        })
    }
}

/// The pairs one bucket contributes.
pub open spec fn spec_bucket_entries(b: Jv) -> Seq<(u64, Seq<char>)> {
    match crate::json::jv_get(b, "artifacts"@) {
        Some(Jv::Arr(xs)) => spec_art_entries(xs),
        _ => Seq::empty(),
    }
}

/// The pairs of the first `upto` buckets, in object order.
pub open spec fn spec_cache_entries(es: Seq<(Seq<char>, Jv)>, upto: int) -> Seq<(u64, Seq<char>)>
    decreases upto,
{
    if upto <= 0 {
        Seq::empty()
    } else {
        spec_cache_entries(es, upto - 1) + spec_bucket_entries(es[upto - 1].1)
    }
}

/// The views of collected pairs.
pub open spec fn view_cache_entries(v: Seq<(u64, String)>) -> Seq<(u64, Seq<char>)> {
    v.map_values(|p: (u64, String)| (p.0, p.1@))
}

/// Suffixes concatenated in order.
pub open spec fn spec_concat_suffixes(ss: Seq<(u64, Seq<char>)>) -> Seq<char>
    decreases ss.len(),
{
    if ss.len() == 0 {
        Seq::empty()
    } else {
        spec_concat_suffixes(ss.drop_last()) + ss.last().1
    }
}

/// Pairs in ascending sequence-number order.
pub open spec fn spec_entries_sorted(ss: Seq<(u64, Seq<char>)>) -> bool {
    forall|i: int, j: int| 0 <= i < j < ss.len() ==> (#[trigger] ss[i]).0 <= (#[trigger] ss[j]).0
}

/// Distills one rank's serialized compile directory: the non-unknown
/// keys become the compile-id set, and the artifacts' status suffixes,
/// ordered by sequence number, concatenate into the cache sequence.
/// Content that is not a JSON object yields an empty distillation.
pub fn extract_rank_metadata(content: &str, rank: u32) -> (r: RankMetaData)
    ensures
        r.rank == rank,
        !(crate::json::text_model(content@) matches Some(m) && m is Obj) ==> (
        r.compile_ids@.len() == 0 && r.cache_sequence@ == Seq::<char>::empty()),
        (crate::json::text_model(content@) matches Some(m) && m is Obj) ==> ({
            let m = crate::json::text_model(content@)->Some_0;
            &&& r.compile_ids@.map_values(|k: String| k@) == spec_nonunknown(
                crate::json::jv_keys(m),
            )
            &&& exists|ss: Seq<(u64, Seq<char>)>|
                #[trigger] spec_entries_sorted(ss) && ss.to_multiset() == spec_cache_entries(
                    m->Obj_0,
                    m->Obj_0.len() as int,
                ).to_multiset() && r.cache_sequence@ == spec_concat_suffixes(ss)
        }),
{
    proof {
        reveal_strlit("unknown");
        reveal_strlit("unknown_");
        reveal_strlit("artifacts");
        reveal_strlit("suffix");
        reveal_strlit("number");
    }
    let mut compile_ids: Vec<String> = Vec::new();
    let mut entries: Vec<(u64, String)> = Vec::new();
    let parsed = match json_parse(content) {
        Some(v) => v,
        None => {
            return RankMetaData { rank, compile_ids, cache_sequence: String::new() };
        },
    };
    if !crate::json::value_is_object(&parsed) {
        return RankMetaData { rank, compile_ids, cache_sequence: String::new() };
    }
    let ghost m = jmodel(parsed);
    let ghost es = m->Obj_0;
    let keys = object_keys(&parsed);
    let mut k: usize = 0;
    proof {
        assert(crate::json::jv_keys(m).subrange(0, 0) =~= Seq::<Seq<char>>::empty());
        assert(spec_cache_entries(es, 0) =~= Seq::<(u64, Seq<char>)>::empty());
        assert(view_cache_entries(entries@) =~= Seq::<(u64, Seq<char>)>::empty());
        assert(compile_ids@.map_values(|x: String| x@) =~= Seq::<Seq<char>>::empty());
        assert(keys@.map_values(|s: String| s@).len() == keys@.len());
        assert(crate::json::jv_keys(m).len() == es.len());
    }
    while k < keys.len()
        invariant
            k <= keys@.len(),
            m == jmodel(parsed),
            m is Obj,
            es == m->Obj_0,
            crate::json::jv_top_sorted(m),
            keys@.map_values(|s: String| s@) == crate::json::jv_keys(m),
            keys@.len() == es.len(),
            compile_ids@.map_values(|x: String| x@) == spec_nonunknown(
                crate::json::jv_keys(m).subrange(0, k as int),
            ),
            view_cache_entries(entries@) == spec_cache_entries(es, k as int),
        decreases keys@.len() - k,
    {
        let ghost kv = crate::json::jv_keys(m);
        let key = &keys[k];
        proof {
            assert(keys@.map_values(|s: String| s@)[k as int] == key@);
            assert(kv[k as int] == es[k as int].0);
            crate::json::lemma_sorted_obj_get(es, k as int);
        }
        let is_unknown = str_eq(key.as_str(), "unknown") || str_starts_with(
            key.as_str(),
            "unknown_",
        );
        let ghost ids0 = compile_ids@.map_values(|x: String| x@);
        if !is_unknown {
            compile_ids.push(key.clone());
        }
        proof {
            assert(kv.subrange(0, k + 1).drop_last() =~= kv.subrange(0, k as int));
            assert(kv.subrange(0, k + 1).last() == kv[k as int]);
            if !spec_is_unknown_key(key@) {
                assert(compile_ids@.map_values(|x: String| x@) =~= ids0.push(key@));
            }
            assert(compile_ids@.map_values(|x: String| x@) =~= spec_nonunknown(
                kv.subrange(0, k + 1),
            ));
        }
        match value_get(&parsed, key.as_str()) {
            Some(bucket) => {
                proof {
                    assert(jmodel(*bucket) == es[k as int].1);
                }
                match value_get(bucket, "artifacts") {
                    Some(arts) => {
                        match value_array_len(arts) {
                            Some(n) => {
                                let ghost xs = jmodel(*arts)->Arr_0;
                                let mut a: usize = 0;
                                proof {
                                    assert(xs.subrange(0, 0) =~= Seq::<Jv>::empty());
                                    assert(spec_art_entries(xs.subrange(0, 0)) =~= Seq::<
                                        (u64, Seq<char>),
                                    >::empty());
                                    assert(view_cache_entries(entries@) + spec_art_entries(
                                        xs.subrange(0, 0),
                                    ) =~= view_cache_entries(entries@));
                                }
                                let ghost base = view_cache_entries(entries@);
                                proof {
                                    assert(base == spec_cache_entries(es, k as int));
                                    assert(crate::json::jv_get(es[k as int].1, "artifacts"@)
                                        == Some(jmodel(*arts)));
                                }
                                while a < n
                                    invariant
                                        a <= n,
                                        jmodel(*arts) matches Jv::Arr(xs2) && xs2 == xs && xs.len()
                                            == n,
                                        view_cache_entries(entries@) == base + spec_art_entries(
                                            xs.subrange(0, a as int),
                                        ),
                                    decreases n - a,
                                {
                                    let art = match value_array_get(arts, a) {
                                        Some(x) => x,
                                        None => {
                                            proof {
                                                assert(false);
                                            }
                                            arts
                                        },
                                    };
                                    let ghost e0 = view_cache_entries(entries@);
                                    match value_get(art, "suffix") {
                                        Some(sv) => match value_as_str(sv) {
                                            Some(sfx) => {
                                                if sfx.unicode_len() > 0 {
                                                    match value_get(art, "number") {
                                                        Some(nv) => match value_as_u64(nv) {
                                                            Some(num) => {
                                                                entries.push(
                                                                    (num, String::from_str(sfx)),
                                                                );
                                                                proof {
                                                                    assert(view_cache_entries(
                                                                        entries@,
                                                                    ) =~= e0.push((num, sfx@)));
                                                                }
                                                            },
                                                            None => {},
                                                        },
                                                        None => {},
                                                    }
                                                }
                                            },
                                            None => {},
                                        },
                                        None => {},
                                    }
                                    a = a + 1;
                                    proof {
                                        assert(xs.subrange(0, a as int).drop_last()
                                            =~= xs.subrange(0, a - 1));
                                        assert(xs.subrange(0, a as int).last() == xs[a - 1]);
                                        assert(view_cache_entries(entries@) =~= base
                                            + spec_art_entries(xs.subrange(0, a as int)));
                                    }
                                }
                                proof {
                                    assert(xs.subrange(0, n as int) =~= xs);
                                    assert(base == spec_cache_entries(es, k as int));
                                    assert(crate::json::jv_get(es[k as int].1, "artifacts"@)
                                        == Some(jmodel(*arts)));
                                    assert(spec_bucket_entries(es[k as int].1)
                                        =~= spec_art_entries(xs));
                                    assert(view_cache_entries(entries@) =~= base
                                        + spec_art_entries(xs));
                                    assert(spec_cache_entries(es, k + 1) == spec_cache_entries(
                                        es,
                                        k as int,
                                    ) + spec_bucket_entries(es[k as int].1));
                                    assert(view_cache_entries(entries@) =~= spec_cache_entries(
                                        es,
                                        k + 1,
                                    ));
                                }
                            },
                            None => {
                                proof {
                                    assert(spec_bucket_entries(es[k as int].1) =~= Seq::<
                                        (u64, Seq<char>),
                                    >::empty());
                                    assert(view_cache_entries(entries@) =~= spec_cache_entries(
                                        es,
                                        k + 1,
                                    ));
                                }
                            },
                        }
                    },
                    None => {
                        proof {
                            assert(spec_bucket_entries(es[k as int].1) =~= Seq::<
                                (u64, Seq<char>),
                            >::empty());
                            assert(view_cache_entries(entries@) =~= spec_cache_entries(es, k + 1));
                        }
                    },
                }
            },
            None => {
                proof {
                    assert(false);
                }
            },
        }
        k = k + 1;
    }
    proof {
        assert(crate::json::jv_keys(m).subrange(
            0,
            crate::json::jv_keys(m).len() as int,
        ) =~= crate::json::jv_keys(m));
    }
    let sorted = sort_entries_by_number(entries);
    let mut cache_sequence = String::new();
    let ghost sv = view_cache_entries(sorted@);
    let mut si: usize = 0;
    proof {
        assert(sv.subrange(0, 0) =~= Seq::<(u64, Seq<char>)>::empty());
    }
    while si < sorted.len()
        invariant
            si <= sorted@.len(),
            sv == view_cache_entries(sorted@),
            cache_sequence@ == spec_concat_suffixes(sv.subrange(0, si as int)),
        decreases sorted@.len() - si,
    {
        cache_sequence.append(sorted[si].1.as_str());
        si = si + 1;
        proof {
            assert(sv.subrange(0, si as int).drop_last() =~= sv.subrange(0, si - 1));
            assert(sv.subrange(0, si as int).last() == sv[si - 1]);
            assert(sv[si - 1].1 == sorted@[si - 1].1@);
            assert(cache_sequence@ =~= spec_concat_suffixes(sv.subrange(0, si as int)));
        }
    }
    proof {
        assert(sv.subrange(0, sv.len() as int) =~= sv);
        assert(spec_entries_sorted(sv));
    }
    RankMetaData { rank, compile_ids, cache_sequence }
}

/// The canonical fingerprint of a JSON text: its compact re-rendering;
/// text that is not valid JSON has none.
pub fn canonical_fingerprint(content: &str) -> (r: Option<String>)
    ensures
        (r is None) == (crate::json::text_model(content@) is None),
        r matches Some(s) ==> s@ == crate::json::rendered(
            crate::json::text_model(content@)->Some_0,
        ),
{
    match json_parse(content) {
        Some(v) => Some(crate::json::value_to_string(&v)),
        None => None,
    }
}

/// Sorts (sequence number, suffix) pairs by number, ascending, keeping
/// exactly the same pairs.
fn sort_entries_by_number(v: Vec<(u64, String)>) -> (r: Vec<(u64, String)>)
    ensures
        r@.len() == v@.len(),
        forall|i: int, j: int| 0 <= i < j < r@.len() ==> (#[trigger] r@[i]).0 <= (#[trigger] r@[j]).0,
        view_cache_entries(r@).to_multiset() == view_cache_entries(v@).to_multiset(),
{
    let ghost total = v@.len();
    let ghost vm = view_cache_entries(v@);
    let mut v = v;
    let mut r: Vec<(u64, String)> = Vec::new();
    proof {
        broadcast use vstd::seq_lib::group_to_multiset_ensures;

        assert(view_cache_entries(r@) =~= Seq::<(u64, Seq<char>)>::empty());
        assert(view_cache_entries(v@) =~= vm);
    }
    while v.len() > 0
        invariant
            forall|i: int, j: int|
                0 <= i < j < r@.len() ==> (#[trigger] r@[i]).0 <= (#[trigger] r@[j]).0,
            r@.len() + v@.len() == total,
            view_cache_entries(r@).to_multiset().add(view_cache_entries(v@).to_multiset())
                == vm.to_multiset(),
        decreases v@.len(),
    {
        let ghost v0 = v@;
        let x = v.remove(0);
        let ghost xv = (x.0, x.1@);
        proof {
            broadcast use vstd::seq_lib::group_to_multiset_ensures;

            assert(view_cache_entries(v0).remove(0) =~= view_cache_entries(v@));
            assert(view_cache_entries(v0)[0] == xv);
        }
        let mut j: usize = r.len();
        while j > 0 && r[j - 1].0 > x.0
            invariant
                j <= r@.len(),
                forall|k: int| j <= k < r@.len() ==> (#[trigger] r@[k]).0 > x.0,
                forall|i: int, jj: int|
                    0 <= i < jj < r@.len() ==> (#[trigger] r@[i]).0 <= (#[trigger] r@[jj]).0,
            decreases j,
        {
            j = j - 1;
        }
        let ghost r0 = r@;
        r.insert(j, x);
        proof {
            broadcast use vstd::seq_lib::group_to_multiset_ensures;

            assert(r@ == r0.insert(j as int, x));
            let rm0 = view_cache_entries(r0);
            assert(view_cache_entries(r@) =~= (rm0.subrange(0, j as int).push(xv)) + rm0.subrange(
                j as int,
                rm0.len() as int,
            ));
            vstd::seq_lib::lemma_multiset_commutative(
                rm0.subrange(0, j as int).push(xv),
                rm0.subrange(j as int, rm0.len() as int),
            );
            vstd::seq_lib::lemma_multiset_commutative(rm0.subrange(0, j as int), rm0.subrange(
                j as int,
                rm0.len() as int,
            ));
            assert(rm0.subrange(0, j as int) + rm0.subrange(j as int, rm0.len() as int) =~= rm0);
            assert(view_cache_entries(r@).to_multiset() =~= rm0.to_multiset().insert(xv));
        }
    }
    proof {
        broadcast use vstd::seq_lib::group_to_multiset_ensures;

        assert(view_cache_entries(v@) =~= Seq::<(u64, Seq<char>)>::empty());
        assert(view_cache_entries(r@).to_multiset() =~= vm.to_multiset());
    }
    r
}

/// A view is among a list's views.
pub open spec fn id_present(l: Seq<String>, s: Seq<char>) -> bool {
    exists|j: int| 0 <= j < l.len() && (#[trigger] l[j])@ == s
}

/// The first `upto` views of `a` all occur in `b`.
pub open spec fn ids_subset(a: Seq<String>, upto: int, b: Seq<String>) -> bool {
    forall|i: int| 0 <= i < upto ==> id_present(b, (#[trigger] a[i])@)
}

/// Whether two id lists carry the same set of strings.
pub open spec fn spec_same_id_set(a: Seq<String>, b: Seq<String>) -> bool {
    ids_subset(a, a.len() as int, b) && ids_subset(b, b.len() as int, a)
}

/// Membership of a string among a list's views.
fn id_in(l: &Vec<String>, s: &String) -> (r: bool)
    ensures
        r == id_present(l@, s@),
{
    let mut j: usize = 0;
    while j < l.len()
        invariant
            j <= l@.len(),
            forall|k: int| 0 <= k < j ==> (#[trigger] l@[k])@ != s@,
        decreases l@.len() - j,
    {
        if str_eq(l[j].as_str(), s.as_str()) {
            proof {
                assert(l@[j as int]@ == s@);
            }
            return true;
        }
        j = j + 1;
    }
    false
}

/// Set equality of two id lists.
pub fn same_id_set(a: &Vec<String>, b: &Vec<String>) -> (r: bool)
    ensures
        r == spec_same_id_set(a@, b@),
{
    let mut i: usize = 0;
    while i < a.len()
        invariant
            i <= a@.len(),
            ids_subset(a@, i as int, b@),
        decreases a@.len() - i,
    {
        if !id_in(b, &a[i]) {
            return false;
        }
        i = i + 1;
    }
    let mut j: usize = 0;
    while j < b.len()
        invariant
            j <= b@.len(),
            ids_subset(a@, a@.len() as int, b@),
            ids_subset(b@, j as int, a@),
        decreases b@.len() - j,
    {
        if !id_in(a, &b[j]) {
            return false;
        }
        j = j + 1;
    }
    true
}

/// Whether any rank's compile-id set differs from the first rank's.
pub fn compile_id_divergence(mds: &Vec<RankMetaData>) -> (r: bool)
    ensures
        r == exists|k: int|
            0 <= k < mds@.len() && !spec_same_id_set(
                (#[trigger] mds@[k]).compile_ids@,
                mds@[0].compile_ids@,
            ),
{
    if mds.len() == 0 {
        return false;
    }
    let mut k: usize = 0;
    while k < mds.len()
        invariant
            mds@.len() > 0,
            k <= mds@.len(),
            forall|i: int|
                0 <= i < k ==> spec_same_id_set(
                    (#[trigger] mds@[i]).compile_ids@,
                    mds@[0].compile_ids@,
                ),
        decreases mds@.len() - k,
    {
        if !same_id_set(&mds[k].compile_ids, &mds[0].compile_ids) {
            return true;
        }
        k = k + 1;
    }
    false
}

/// The cache-sequence pairs the grouping runs on.
pub fn cache_signature_pairs(mds: &Vec<RankMetaData>) -> (r: Vec<(u32, String)>)
    ensures
        r@.len() == mds@.len(),
        forall|k: int|
            0 <= k < r@.len() ==> (#[trigger] r@[k]).0 == mds@[k].rank && r@[k].1@
                == mds@[k].cache_sequence@,
{
    let mut r: Vec<(u32, String)> = Vec::new();
    let mut k: usize = 0;
    while k < mds.len()
        invariant
            k <= mds@.len(),
            r@.len() == k,
            forall|i: int|
                0 <= i < k ==> (#[trigger] r@[i]).0 == mds@[i].rank && r@[i].1@
                    == mds@[i].cache_sequence@,
        decreases mds@.len() - k,
    {
        r.push((mds[k].rank, mds[k].cache_sequence.clone()));
        k = k + 1;
    }
    r
}

/// The operation names one rank contributes, flattened in input order.
pub open spec fn spec_ops_for_rank(s: Seq<CollectiveSchedule>, rank: u32) -> Seq<Seq<char>>
    decreases s.len(),
{
    if s.len() == 0 {
        Seq::empty()
    } else {
        spec_ops_for_rank(s.drop_last(), rank) + (if s.last().rank == rank {
            s.last().ops@.map_values(|o: String| o@)
        } else {
            Seq::empty()
        })
    }
}

/// Texts joined with commas.
pub open spec fn spec_join_comma(xs: Seq<Seq<char>>) -> Seq<char>
    decreases xs.len(),
{
    if xs.len() == 0 {
        Seq::empty()
    } else if xs.len() == 1 {
        xs[0]
    } else {
        spec_join_comma(xs.drop_last()) + ","@ + xs.last()
    }
}

/// The per-rank collective signatures: for each listed rank, all its
/// operation names in input order, joined with commas.
pub fn collective_signature_pairs(
    schedules: &Vec<CollectiveSchedule>,
    ranks: &Vec<u32>,
) -> (r: Vec<(u32, String)>)
    ensures
        r@.len() == ranks@.len(),
        forall|k: int|
            0 <= k < r@.len() ==> (#[trigger] r@[k]).0 == ranks@[k] && r@[k].1@ == spec_join_comma(
                spec_ops_for_rank(schedules@, ranks@[k]),
            ),
{
    proof {
        reveal_strlit(",");
    }
    let mut r: Vec<(u32, String)> = Vec::new();
    let mut k: usize = 0;
    while k < ranks.len()
        invariant
            k <= ranks@.len(),
            r@.len() == k,
            forall|i: int|
                0 <= i < k ==> (#[trigger] r@[i]).0 == ranks@[i] && r@[i].1@ == spec_join_comma(
                    spec_ops_for_rank(schedules@, ranks@[i]),
                ),
        decreases ranks@.len() - k,
    {
        let rank = ranks[k];
        let mut parts: Vec<String> = Vec::new();
        let mut si: usize = 0;
        while si < schedules.len()
            invariant
                si <= schedules@.len(),
                parts@.map_values(|p: String| p@) == spec_ops_for_rank(
                    schedules@.subrange(0, si as int),
                    rank,
                ),
            decreases schedules@.len() - si,
        {
            let ghost pre = schedules@.subrange(0, si as int);
            let ghost post = schedules@.subrange(0, si + 1);
            proof {
                assert(post.drop_last() =~= pre);
                assert(post.last() == schedules@[si as int]);
            }
            if schedules[si].rank == rank {
                let ops = &schedules[si].ops;
                let mut oi: usize = 0;
                while oi < ops.len()
                    invariant
                        oi <= ops@.len(),
                        ops == schedules@[si as int].ops,
                        parts@.map_values(|p: String| p@) == spec_ops_for_rank(
                            schedules@.subrange(0, si as int),
                            rank,
                        ) + ops@.map_values(|o: String| o@).subrange(0, oi as int),
                    decreases ops@.len() - oi,
                {
                    let ghost pm0 = parts@.map_values(|p: String| p@);
                    parts.push(ops[oi].clone());
                    oi = oi + 1;
                    proof {
                        let om = ops@.map_values(|o: String| o@);
                        assert(om[oi - 1] == ops@[oi - 1]@);
                        assert(parts@.map_values(|p: String| p@) =~= pm0.push(ops@[oi - 1]@));
                        assert(om.subrange(0, oi as int) =~= om.subrange(0, oi - 1).push(
                            om[oi - 1],
                        ));
                        assert(pm0.push(om[oi - 1]) =~= spec_ops_for_rank(
                            schedules@.subrange(0, si as int),
                            rank,
                        ) + om.subrange(0, oi as int));
                    }
                }
                proof {
                    assert(ops@.map_values(|o: String| o@).subrange(
                        0,
                        ops@.len() as int,
                    ) =~= ops@.map_values(|o: String| o@));
                    assert(parts@.map_values(|p: String| p@) =~= spec_ops_for_rank(post, rank));
                }
            } else {
                proof {
                    assert(spec_ops_for_rank(post, rank) =~= spec_ops_for_rank(pre, rank));
                }
            }
            si = si + 1;
        }
        proof {
            assert(schedules@.subrange(0, schedules@.len() as int) =~= schedules@);
        }
        let joined = join_comma(&parts);
        r.push((rank, joined));
        k = k + 1;
    }
    r
}

/// Joins texts with commas.
pub fn join_comma(parts: &Vec<String>) -> (r: String)
    ensures
        r@ == spec_join_comma(parts@.map_values(|p: String| p@)),
{
    proof {
        reveal_strlit(",");
    }
    let ghost pv = parts@.map_values(|p: String| p@);
    let mut r = String::new();
    let mut i: usize = 0;
    while i < parts.len()
        invariant
            i <= parts@.len(),
            pv == parts@.map_values(|p: String| p@),
            r@ == spec_join_comma(pv.subrange(0, i as int)),
        decreases parts@.len() - i,
    {
        if i > 0 {
            r.append(",");
        }
        r.append(parts[i].as_str());
        i = i + 1;
        proof {
            assert(pv.subrange(0, i as int).drop_last() =~= pv.subrange(0, i - 1));
            assert(pv.subrange(0, i as int).last() == pv[i - 1]);
            if i == 1 {
                assert(pv.subrange(0, 1)[0] == pv[0]);
            }
            assert(r@ =~= spec_join_comma(pv.subrange(0, i as int)));
        }
    }
    proof {
        assert(pv.subrange(0, pv.len() as int) =~= pv);
    }
    r
}

/// The view of a list of (graph, fingerprint) items.
pub open spec fn view_items(v: Seq<(String, String)>) -> Seq<(Seq<char>, Seq<char>)> {
    v.map_values(|p: (String, String)| (p.0@, p.1@))
}

/// The (graph, fingerprint) items one rank contributes, in input order.
pub open spec fn spec_rank_items(tm: Seq<TensorMetaFingerprint>, rank: u32) -> Seq<
    (Seq<char>, Seq<char>),
>
    decreases tm.len(),
{
    if tm.len() == 0 {
        Seq::empty()
    } else {
        spec_rank_items(tm.drop_last(), rank) + (if tm.last().rank == rank {
            seq![(tm.last().graph@, tm.last().fingerprint@)]
        } else {
            Seq::empty()
        })
    }
}

/// Items ordered by graph name, ascending.
pub open spec fn spec_items_sorted(ss: Seq<(Seq<char>, Seq<char>)>) -> bool {
    forall|i: int, j: int|
        0 <= i < j < ss.len() ==> crate::analysis::spec_lex_le(
            (#[trigger] ss[i]).0,
            (#[trigger] ss[j]).0,
        )
}

/// Whether `joined` is one rank's tensor signature: the comma-join of
/// the rank's fingerprints in some graph-ordered arrangement of exactly
/// its items.
pub open spec fn spec_rank_signature(
    tm: Seq<TensorMetaFingerprint>,
    rank: u32,
    joined: Seq<char>,
) -> bool {
    exists|ss: Seq<(Seq<char>, Seq<char>)>|
        spec_items_sorted(ss) && ss.to_multiset() == spec_rank_items(tm, rank).to_multiset()
            && joined == spec_join_comma(ss.map_values(|it: (Seq<char>, Seq<char>)| it.1))
}

/// The ranks of the fingerprint records, first appearance first.
pub open spec fn spec_distinct_ranks(tm: Seq<TensorMetaFingerprint>) -> Seq<u32>
    decreases tm.len(),
{
    if tm.len() == 0 {
        Seq::empty()
    } else {
        let p = spec_distinct_ranks(tm.drop_last());
        if p.contains(tm.last().rank) {
            p
        } else {
            p.push(tm.last().rank)
        }
    }
}

/// The per-rank tensor-metadata signatures: one pair per distinct rank
/// in order of first appearance, each value the rank's fingerprints
/// ordered by graph name and joined with commas.
pub fn tensor_signature_pairs(tm: &Vec<TensorMetaFingerprint>) -> (r: Vec<(u32, String)>)
    ensures
        r@.len() == spec_distinct_ranks(tm@).len(),
        forall|k: int| 0 <= k < r@.len() ==> (#[trigger] r@[k]).0 == spec_distinct_ranks(tm@)[k],
        forall|k1: int, k2: int|
            0 <= k1 < k2 < r@.len() ==> (#[trigger] r@[k1]).0 != (#[trigger] r@[k2]).0,
        forall|k: int|
            0 <= k < r@.len() ==> spec_rank_signature(tm@, (#[trigger] r@[k]).0, r@[k].1@),
{
    let mut ranks: Vec<u32> = Vec::new();
    let mut i: usize = 0;
    proof {
        assert(tm@.subrange(0, 0) =~= Seq::<TensorMetaFingerprint>::empty());
    }
    while i < tm.len()
        invariant
            i <= tm@.len(),
            ranks@ == spec_distinct_ranks(tm@.subrange(0, i as int)),
            forall|a: int, b: int|
                0 <= a < b < ranks@.len() ==> (#[trigger] ranks@[a]) != (#[trigger] ranks@[b]),
        decreases tm@.len() - i,
    {
        let rk = tm[i].rank;
        let mut seen = false;
        let mut j: usize = 0;
        while j < ranks.len() && !seen
            invariant
                j <= ranks@.len(),
                !seen ==> forall|a: int| 0 <= a < j ==> (#[trigger] ranks@[a]) != rk,
                seen ==> exists|a: int| 0 <= a < ranks@.len() && (#[trigger] ranks@[a]) == rk,
                forall|a: int, b: int|
                    0 <= a < b < ranks@.len() ==> (#[trigger] ranks@[a]) != (#[trigger] ranks@[b]),
            decreases ranks@.len() - j + (if seen {
                0int
            } else {
                1int
            }),
        {
            if ranks[j] == rk {
                seen = true;
            } else {
                j = j + 1;
            }
        }
        let ghost ranks0 = ranks@;
        if !seen {
            ranks.push(rk);
        }
        i = i + 1;
        proof {
            assert(tm@.subrange(0, i as int).drop_last() =~= tm@.subrange(0, i - 1));
            assert(tm@.subrange(0, i as int).last() == tm@[i - 1]);
            if seen {
                assert(ranks0.contains(rk));
            } else {
                assert(!ranks0.contains(rk)) by {
                    if ranks0.contains(rk) {
                        let a = choose|a: int| 0 <= a < ranks0.len() && ranks0[a] == rk;
                        assert(ranks0[a] != rk);
                    }
                }
            }
            assert(ranks@ == spec_distinct_ranks(tm@.subrange(0, i as int)));
        }
    }
    proof {
        assert(tm@.subrange(0, tm@.len() as int) =~= tm@);
    }
    let mut r: Vec<(u32, String)> = Vec::new();
    let mut k: usize = 0;
    while k < ranks.len()
        invariant
            k <= ranks@.len(),
            r@.len() == k,
            ranks@ == spec_distinct_ranks(tm@),
            forall|a: int, b: int|
                0 <= a < b < ranks@.len() ==> (#[trigger] ranks@[a]) != (#[trigger] ranks@[b]),
            forall|a: int| 0 <= a < k ==> (#[trigger] r@[a]).0 == ranks@[a],
            forall|a: int|
                0 <= a < k ==> spec_rank_signature(tm@, (#[trigger] r@[a]).0, r@[a].1@),
        decreases ranks@.len() - k,
    {
        let rank = ranks[k];
        let mut items: Vec<(String, String)> = Vec::new();
        let mut ti: usize = 0;
        proof {
            assert(tm@.subrange(0, 0) =~= Seq::<TensorMetaFingerprint>::empty());
            assert(view_items(items@) =~= Seq::<(Seq<char>, Seq<char>)>::empty());
        }
        while ti < tm.len()
            invariant
                ti <= tm@.len(),
                view_items(items@) == spec_rank_items(tm@.subrange(0, ti as int), rank),
            decreases tm@.len() - ti,
        {
            let ghost items0 = items@;
            if tm[ti].rank == rank {
                items.push((tm[ti].graph.clone(), tm[ti].fingerprint.clone()));
            }
            ti = ti + 1;
            proof {
                assert(tm@.subrange(0, ti as int).drop_last() =~= tm@.subrange(0, ti - 1));
                assert(tm@.subrange(0, ti as int).last() == tm@[ti - 1]);
                if tm@[ti - 1].rank == rank {
                    assert(view_items(items@) =~= view_items(items0) + seq![
                        (tm@[ti - 1].graph@, tm@[ti - 1].fingerprint@),
                    ]);
                }
                assert(view_items(items@) == spec_rank_items(tm@.subrange(0, ti as int), rank));
            }
        }
        proof {
            assert(tm@.subrange(0, tm@.len() as int) =~= tm@);
        }
        let sorted = sort_items_by_graph(items);
        let ghost sortedv = view_items(sorted@);
        let mut parts: Vec<String> = Vec::new();
        let mut pi: usize = 0;
        proof {
            assert(parts@.map_values(|p: String| p@) =~= Seq::<Seq<char>>::empty());
            assert(sortedv.subrange(0, 0).map_values(|it: (Seq<char>, Seq<char>)| it.1) =~= Seq::<
                Seq<char>,
            >::empty());
        }
        while pi < sorted.len()
            invariant
                pi <= sorted@.len(),
                sortedv == view_items(sorted@),
                parts@.map_values(|p: String| p@) == sortedv.subrange(0, pi as int).map_values(
                    |it: (Seq<char>, Seq<char>)| it.1,
                ),
            decreases sorted@.len() - pi,
        {
            let ghost parts0 = parts@.map_values(|p: String| p@);
            parts.push(sorted[pi].1.clone());
            pi = pi + 1;
            proof {
                assert(parts@.map_values(|p: String| p@) =~= parts0.push(sorted@[pi - 1].1@));
                assert(sortedv[pi - 1].1 == sorted@[pi - 1].1@);
                assert(parts@.map_values(|p: String| p@) =~= sortedv.subrange(
                    0,
                    pi as int,
                ).map_values(|it: (Seq<char>, Seq<char>)| it.1));
            }
        }
        proof {
            assert(sortedv.subrange(0, sortedv.len() as int) =~= sortedv);
        }
        let joined = join_comma(&parts);
        let ghost r0 = r@;
        r.push((rank, joined));
        k = k + 1;
        proof {
            assert(spec_items_sorted(sortedv)) by {
                assert forall|a: int, b: int|
                    0 <= a < b < sortedv.len() implies crate::analysis::spec_lex_le(
                    (#[trigger] sortedv[a]).0,
                    (#[trigger] sortedv[b]).0,
                ) by {
                    assert(sortedv[a].0 == sorted@[a].0@ && sortedv[b].0 == sorted@[b].0@);
                }
            }
            assert(r@[k - 1].0 == rank && r@[k - 1].1@ == joined@);
            assert(spec_rank_signature(tm@, rank, joined@)) by {
                assert(spec_items_sorted(sortedv) && sortedv.to_multiset() == spec_rank_items(
                    tm@,
                    rank,
                ).to_multiset() && joined@ == spec_join_comma(
                    sortedv.map_values(|it: (Seq<char>, Seq<char>)| it.1),
                ));
            }
            assert forall|a: int| 0 <= a < k implies spec_rank_signature(
                tm@,
                (#[trigger] r@[a]).0,
                r@[a].1@,
            ) by {
                if a < k - 1 {
                    assert(r@[a] == r0[a]);
                }
            }
        }
    }
    r
}

/// Sorts (graph, fingerprint) pairs by graph name, ascending, keeping
/// exactly the same pairs.
fn sort_items_by_graph(v: Vec<(String, String)>) -> (r: Vec<(String, String)>)
    ensures
        r@.len() == v@.len(),
        forall|i: int, j: int|
            0 <= i < j < r@.len() ==> crate::analysis::spec_lex_le(
                (#[trigger] r@[i]).0@,
                (#[trigger] r@[j]).0@,
            ),
        view_items(r@).to_multiset() == view_items(v@).to_multiset(),
{
    let ghost total = v@.len();
    let ghost vm = view_items(v@);
    let mut v = v;
    let mut r: Vec<(String, String)> = Vec::new();
    proof {
        broadcast use vstd::seq_lib::group_to_multiset_ensures;

        assert(view_items(r@) =~= Seq::<(Seq<char>, Seq<char>)>::empty());
        assert(view_items(v@) =~= vm);
    }
    while v.len() > 0
        invariant
            forall|i: int, j: int|
                0 <= i < j < r@.len() ==> crate::analysis::spec_lex_le(
                    (#[trigger] r@[i]).0@,
                    (#[trigger] r@[j]).0@,
                ),
            r@.len() + v@.len() == total,
            view_items(r@).to_multiset().add(view_items(v@).to_multiset()) == vm.to_multiset(),
        decreases v@.len(),
    {
        let ghost v0 = v@;
        let x = v.remove(0);
        let ghost xv = (x.0@, x.1@);
        proof {
            broadcast use vstd::seq_lib::group_to_multiset_ensures;

            assert(view_items(v0).remove(0) =~= view_items(v@));
            assert(view_items(v0)[0] == xv);
        }
        let mut j: usize = r.len();
        while j > 0 && !crate::analysis::str_lex_le(r[j - 1].0.as_str(), x.0.as_str())
            invariant
                j <= r@.len(),
                forall|k: int|
                    j <= k < r@.len() ==> !crate::analysis::spec_lex_le(
                        (#[trigger] r@[k]).0@,
                        x.0@,
                    ),
                forall|i: int, jj: int|
                    0 <= i < jj < r@.len() ==> crate::analysis::spec_lex_le(
                        (#[trigger] r@[i]).0@,
                        (#[trigger] r@[jj]).0@,
                    ),
            decreases j,
        {
            j = j - 1;
        }
        let ghost r0 = r@;
        let ghost xg = x;
        r.insert(j, x);
        proof {
            broadcast use vstd::seq_lib::group_to_multiset_ensures;

            assert(r@ == r0.insert(j as int, xg));
            let rm0 = view_items(r0);
            assert(view_items(r@) =~= (rm0.subrange(0, j as int).push(xv)) + rm0.subrange(
                j as int,
                rm0.len() as int,
            ));
            vstd::seq_lib::lemma_multiset_commutative(
                rm0.subrange(0, j as int).push(xv),
                rm0.subrange(j as int, rm0.len() as int),
            );
            vstd::seq_lib::lemma_multiset_commutative(rm0.subrange(0, j as int), rm0.subrange(
                j as int,
                rm0.len() as int,
            ));
            assert(rm0.subrange(0, j as int) + rm0.subrange(j as int, rm0.len() as int) =~= rm0);
            assert(view_items(r@).to_multiset() =~= rm0.to_multiset().insert(xv));
            assert forall|a: int, b: int| 0 <= a < b < r@.len() implies crate::analysis::spec_lex_le(
                (#[trigger] r@[a]).0@,
                (#[trigger] r@[b]).0@,
            ) by {
                if a == j && b > j {
                    assert(r@[b] == r0[b - 1]);
                    crate::analysis::lemma_lex_le_total(r0[b - 1].0@, xg.0@);
                } else if b == j {
                    assert(r@[a] == r0[a]);
                    if j > 0 {
                        assert(crate::analysis::spec_lex_le(r0[j - 1].0@, xg.0@));
                        if a < j - 1 {
                            crate::analysis::lemma_lex_le_trans(r0[a].0@, r0[j - 1].0@, xg.0@);
                        }
                    }
                } else if a < j && b > j {
                    assert(r@[a] == r0[a] && r@[b] == r0[b - 1]);
                    assert(crate::analysis::spec_lex_le(r0[a].0@, r0[b - 1].0@));
                } else if a < j && b < j {
                    assert(r@[a] == r0[a] && r@[b] == r0[b]);
                } else {
                    assert(r@[a] == r0[a - 1] && r@[b] == r0[b - 1]);
                }
            }
        }
    }
    proof {
        broadcast use vstd::seq_lib::group_to_multiset_ensures;

        assert(view_items(v@) =~= Seq::<(Seq<char>, Seq<char>)>::empty());
        assert(view_items(r@).to_multiset() =~= vm.to_multiset());
    }
    r
}

/// A trace event document tagged with its origin rank: objects gain a
/// "pid" field, other documents pass through.
pub open spec fn spec_with_pid(x: Jv, rank: u32) -> Jv {
    match x {
        Jv::Obj(es) => Jv::Obj(crate::json::jv_obj_insert(es, "pid"@, Jv::UInt(rank as u64))),
        _ => x,
    }
}

/// Re-tags one rank's serialized chromium events with the rank as pid.
/// Content that is not a JSON array yields nothing (the caller then
/// contributes no events for the rank).
pub fn events_with_pid(content: &str, rank: u32) -> (r: Option<Vec<serde_json::Value>>)
    ensures
        (r is Some) == (crate::json::text_model(content@) matches Some(m) && m is Arr),
        r matches Some(evs) ==> ({
            let xs = crate::json::text_model(content@)->Some_0->Arr_0;
            &&& evs@.len() == xs.len()
            &&& forall|i: int|
                0 <= i < xs.len() ==> jmodel(#[trigger] evs@[i]) == spec_with_pid(xs[i], rank)
        }),
{
    proof {
        reveal_strlit("pid");
    }
    let parsed = match json_parse(content) {
        Some(v) => v,
        None => {
            return None;
        },
    };
    let n = match value_array_len(&parsed) {
        Some(n) => n,
        None => {
            return None;
        },
    };
    let ghost xs = jmodel(parsed)->Arr_0;
    let mut out: Vec<serde_json::Value> = Vec::new();
    let mut i: usize = 0;
    while i < n
        invariant
            i <= n,
            jmodel(parsed) matches Jv::Arr(xs2) && xs2 == xs && xs.len() == n,
            crate::json::jv_elems_top_sorted(jmodel(parsed)),
            out@.len() == i,
            forall|k: int|
                0 <= k < i ==> jmodel(#[trigger] out@[k]) == spec_with_pid(xs[k], rank),
        decreases n - i,
    {
        let elem = match value_array_get(&parsed, i) {
            Some(x) => x,
            None => {
                proof {
                    assert(false);
                }
                &parsed
            },
        };
        let mut ev = crate::json::value_clone(elem);
        if crate::json::value_is_object(&ev) {
            proof {
                crate::json::lemma_obj_insert_sorted(
                    jmodel(ev)->Obj_0,
                    "pid"@,
                    Jv::UInt(rank as u64),
                );
            }
            crate::json::object_insert(&mut ev, "pid", crate::json::u64_value(rank as u64));
        }
        out.push(ev);
        i = i + 1;
    }
    Some(out)
}

/// The deterministic 32-bit thread id of a (rank, graph) pair, named;
/// the hash depends on its input alone.
pub uninterp spec fn tid_of(rank: u32, graph: Seq<char>) -> u32;

/// Relies on fxhash::FxHasher (an unseeded, deterministic hasher): a
/// 32-bit thread id from the (rank, graph) pair.  The hasher works in
/// machine words, so the value is fixed for one build on one word size;
/// every use stays within one process.
#[verifier::external_body]
pub fn calc_tid(rank: u32, graph: &str) -> (r: u32)
    ensures
        r == tid_of(rank, graph@),
{
    let mut h = fxhash::FxHasher::default();
    (rank, graph).hash(&mut h);
    (h.finish() & 0xFFFF_FFFF) as u32
}

/// Saturating addition on `u64`.
pub open spec fn spec_sat_add64(a: u64, b: u64) -> u64 {
    if a + b <= u64::MAX {
        (a + b) as u64
    } else {
        u64::MAX
    }
}

/// The start offset of a graph's `k`-th op: the saturating sum of the
/// durations before it.
pub open spec fn spec_op_ts(ops: Seq<crate::analysis::OpRuntime>, k: int) -> u64
    decreases k,
{
    if k <= 0 {
        0u64
    } else {
        spec_sat_add64(spec_op_ts(ops, k - 1), spec_dur_us(ops[k - 1].estimated_runtime_ns))
    }
}

/// The duration events of one graph, in op order.
pub open spec fn spec_graph_events(g: GraphRuntime) -> Seq<RuntimeTraceEvent> {
    Seq::new(
        g.ops@.len(),
        |k: int|
            RuntimeTraceEvent {
                name: g.ops@[k].name,
                ts_us: spec_op_ts(g.ops@, k),
                dur_us: spec_dur_us(g.ops@[k].estimated_runtime_ns),
                pid: g.rank,
                tid: tid_of(g.rank, g.graph@),
                graph: g.graph,
                rank: g.rank,
                runtime_ns: g.ops@[k].estimated_runtime_ns,
            },
    )
}

/// All duration events of the merged trace, in input order.
pub open spec fn spec_all_events(rt: Seq<GraphRuntime>) -> Seq<RuntimeTraceEvent>
    decreases rt.len(),
{
    if rt.len() == 0 {
        Seq::empty()
    } else {
        spec_all_events(rt.drop_last()) + spec_graph_events(rt.last())
    }
}

/// One op's trace duration: its nanoseconds, ceiling-divided to
/// microseconds, floored at one microsecond.
pub open spec fn spec_dur_us(ns: u64) -> u64 {
    if ns == 0 {
        1u64
    } else {
        (((ns - 1) / 1000) + 1) as u64
    }
}

/// Exec trace duration.
pub fn dur_us(ns: u64) -> (r: u64)
    ensures
        r == spec_dur_us(ns),
{
    if ns == 0 {
        1
    } else {
        (ns - 1) / 1000 + 1
    }
}

/// A process metadata entry (no thread id) names its rank "Rank <pid>"
/// and sorts by the pid.
pub open spec fn spec_process_meta_form(m: TraceMeta) -> bool {
    m.tid is None ==> m.label@ == "Rank "@ + crate::strutil::spec_dec(m.pid as nat)
        && m.sort_index == m.pid as u64
}

/// Process metadata entries come in strictly ascending pid order.
pub open spec fn spec_process_metas_ascending(ms: Seq<TraceMeta>) -> bool {
    forall|k1: int, k2: int|
        0 <= k1 < k2 < ms.len() && (#[trigger] ms[k1]).tid is None && (#[trigger] ms[k2]).tid
            is None ==> ms[k1].pid < ms[k2].pid
}

/// Whether a rank has its process metadata entry.
pub open spec fn spec_rank_meta_present(ms: Seq<TraceMeta>, rank: u32) -> bool {
    exists|k: int| 0 <= k < ms.len() && (#[trigger] ms[k]).pid == rank && ms[k].tid is None
}

/// Builds the merged runtime trace: one duration event per op with
/// sequential time offsets per (rank, graph) thread, plus process and
/// thread metadata sorted for stable rendering: every rank that appears
/// gets exactly one "Rank <pid>" process entry, emitted in ascending
/// pid order.
pub fn build_runtime_trace_events(rt: &Vec<GraphRuntime>) -> (r: (
    Vec<RuntimeTraceEvent>,
    Vec<TraceMeta>,
))
    ensures
        r.0@ == spec_all_events(rt@),
        forall|k: int| 0 <= k < r.1@.len() ==> spec_process_meta_form(#[trigger] r.1@[k]),
        spec_process_metas_ascending(r.1@),
        forall|g: int|
            0 <= g < rt@.len() ==> spec_rank_meta_present(r.1@, (#[trigger] rt@[g]).rank),
{
    proof {
        reveal_strlit("Rank ");
        reveal_strlit("graph ");
    }
    let mut events: Vec<RuntimeTraceEvent> = Vec::new();
    let mut pid_list: Vec<u32> = Vec::new();
    let mut threads: Vec<(u32, u32, String)> = Vec::new();
    let mut gi: usize = 0;
    proof {
        assert(spec_all_events(rt@.subrange(0, 0)) =~= Seq::<RuntimeTraceEvent>::empty());
    }
    while gi < rt.len()
        invariant
            gi <= rt@.len(),
            events@ == spec_all_events(rt@.subrange(0, gi as int)),
            forall|g: int| 0 <= g < gi ==> pid_list@.contains((#[trigger] rt@[g]).rank),
            pid_list@.no_duplicates(),
        decreases rt@.len() - gi,
    {
        let ghost pre = rt@.subrange(0, gi as int);
        let ghost post = rt@.subrange(0, gi + 1);
        let ghost cur = rt@[gi as int];
        proof {
            assert(post.drop_last() =~= pre);
            assert(post.last() == cur);
        }
        let gr = &rt[gi];
        let tid = calc_tid(gr.rank, gr.graph.as_str());
        let ghost pl0 = pid_list@;
        if !u32_in(&pid_list, gr.rank) {
            pid_list.push(gr.rank);
        }
        proof {
            if !pl0.contains(cur.rank) {
                assert(pid_list@.no_duplicates()) by {
                    assert forall|a: int, b: int|
                        0 <= a < pid_list@.len() && 0 <= b < pid_list@.len() && a
                            != b implies pid_list@[a] != pid_list@[b] by {
                        if b == pid_list@.len() - 1 && a < b {
                            assert(pl0[a] == pid_list@[a]);
                        } else if a == pid_list@.len() - 1 && b < a {
                            assert(pl0[b] == pid_list@[b]);
                        }
                    }
                }
            }
            assert forall|g: int| 0 <= g < gi + 1 implies pid_list@.contains(
                (#[trigger] rt@[g]).rank,
            ) by {
                if g < gi {
                    let w = choose|w: int| 0 <= w < pl0.len() && pl0[w] == rt@[g].rank;
                    assert(pid_list@[w] == rt@[g].rank);
                } else {
                    if pl0.contains(cur.rank) {
                        let w = choose|w: int| 0 <= w < pl0.len() && pl0[w] == cur.rank;
                        assert(pid_list@[w] == cur.rank);
                    } else {
                        assert(pid_list@.last() == cur.rank);
                    }
                }
            }
        }
        if !thread_known(&threads, gr.rank, tid) {
            threads.push((gr.rank, tid, gr.graph.clone()));
        }
        let mut offset: u64 = 0;
        let mut oi: usize = 0;
        while oi < gr.ops.len()
            invariant
                oi <= gr.ops@.len(),
                gr == rt@[gi as int],
                gi < rt@.len(),
                tid == tid_of(gr.rank, gr.graph@),
                offset == spec_op_ts(gr.ops@, oi as int),
                events@ == spec_all_events(rt@.subrange(0, gi as int)) + spec_graph_events(
                    rt@[gi as int],
                ).subrange(0, oi as int),
            decreases gr.ops@.len() - oi,
        {
            let op = &gr.ops[oi];
            let d = dur_us(op.estimated_runtime_ns);
            let ghost ev0 = events@;
            events.push(
                RuntimeTraceEvent {
                    name: op.name.clone(),
                    ts_us: offset,
                    dur_us: d,
                    pid: gr.rank,
                    tid,
                    graph: gr.graph.clone(),
                    rank: gr.rank,
                    runtime_ns: op.estimated_runtime_ns,
                },
            );
            offset = if offset > u64::MAX - d {
                u64::MAX
            } else {
                offset + d
            };
            oi = oi + 1;
            proof {
                assert(events@.last() == spec_graph_events(rt@[gi as int])[oi - 1]);
                assert(events@ =~= spec_all_events(rt@.subrange(0, gi as int))
                    + spec_graph_events(rt@[gi as int]).subrange(0, oi as int));
            }
        }
        gi = gi + 1;
        proof {
            assert(spec_graph_events(cur).subrange(
                0,
                spec_graph_events(cur).len() as int,
            ) =~= spec_graph_events(cur));
            assert(events@ =~= spec_all_events(rt@.subrange(0, gi as int)));
        }
    }
    proof {
        assert(rt@.subrange(0, rt@.len() as int) =~= rt@);
    }
    let pids = sort_u32(pid_list);
    proof {
        pid_list@.lemma_multiset_has_no_duplicates();
        pids@.lemma_multiset_has_no_duplicates_conv();
    }
    let mut metas: Vec<TraceMeta> = Vec::new();
    let mut pi: usize = 0;
    while pi < pids.len()
        invariant
            pi <= pids@.len(),
            crate::analysis::sorted_u32(pids@),
            pids@.no_duplicates(),
            forall|k: int| 0 <= k < metas@.len() ==> spec_process_meta_form(#[trigger] metas@[k]),
            spec_process_metas_ascending(metas@),
            forall|k: int|
                0 <= k < metas@.len() ==> ((#[trigger] metas@[k]).tid is None ==> exists|a: int|
                    0 <= a < pi && pids@[a] == metas@[k].pid),
            forall|a: int| 0 <= a < pi ==> spec_rank_meta_present(metas@, #[trigger] pids@[a]),
        decreases pids@.len() - pi,
    {
        let pid = pids[pi];
        let mut label = String::from_str("Rank ");
        let pn = u64_to_string(pid as u64);
        label.append(pn.as_str());
        let ghost m0 = metas@;
        metas.push(TraceMeta { pid, tid: None, label, sort_index: pid as u64 });
        proof {
            assert(metas@.last().pid == pid && metas@.last().tid is None);
            assert(metas@.last().label@ == "Rank "@ + crate::strutil::spec_dec(pid as nat));
            assert forall|k: int| 0 <= k < metas@.len() implies spec_process_meta_form(
                #[trigger] metas@[k],
            ) by {
                if k < m0.len() {
                    assert(metas@[k] == m0[k]);
                }
            }
            assert(spec_process_metas_ascending(metas@)) by {
                assert forall|k1: int, k2: int|
                    0 <= k1 < k2 < metas@.len() && (#[trigger] metas@[k1]).tid is None && (
                    #[trigger] metas@[k2]).tid is None implies metas@[k1].pid < metas@[k2].pid by {
                    if k2 < m0.len() {
                        assert(metas@[k1] == m0[k1] && metas@[k2] == m0[k2]);
                    } else {
                        assert(metas@[k1] == m0[k1]);
                        let a = choose|a: int| 0 <= a < pi && pids@[a] == m0[k1].pid;
                        assert(pids@[a] <= pids@[pi as int]);
                        assert(pids@[a] != pids@[pi as int]);
                    }
                }
            }
            assert forall|k: int|
                0 <= k < metas@.len() && (#[trigger] metas@[k]).tid is None implies exists|a: int|
                0 <= a < pi + 1 && pids@[a] == metas@[k].pid by {
                if k < m0.len() {
                    assert(metas@[k] == m0[k]);
                    let a = choose|a: int| 0 <= a < pi && pids@[a] == m0[k].pid;
                    assert(0 <= a < pi + 1 && pids@[a] == metas@[k].pid);
                } else {
                    assert(pids@[pi as int] == metas@[k].pid);
                }
            }
            assert forall|a: int| 0 <= a < pi + 1 implies spec_rank_meta_present(
                metas@,
                #[trigger] pids@[a],
            ) by {
                if a < pi {
                    let w = choose|w: int|
                        0 <= w < m0.len() && (#[trigger] m0[w]).pid == pids@[a] && m0[w].tid
                            is None;
                    assert(metas@[w] == m0[w]);
                } else {
                    assert(metas@.last().pid == pids@[a] && metas@.last().tid is None);
                }
            }
        }
        let mut mine: Vec<(String, u32)> = Vec::new();
        let mut ti: usize = 0;
        while ti < threads.len()
            decreases threads@.len() - ti,
        {
            if threads[ti].0 == pid {
                mine.push((threads[ti].2.clone(), threads[ti].1));
            }
            ti = ti + 1;
        }
        let sorted = sort_threads_by_graph(mine);
        let mut si: usize = 0;
        while si < sorted.len()
            invariant
                si <= sorted@.len(),
                pi < pids@.len(),
                forall|k: int|
                    0 <= k < metas@.len() ==> spec_process_meta_form(#[trigger] metas@[k]),
                spec_process_metas_ascending(metas@),
                forall|k: int|
                    0 <= k < metas@.len() ==> ((#[trigger] metas@[k]).tid is None ==> exists|
                        a: int,
                    |
                        0 <= a < pi + 1 && pids@[a] == metas@[k].pid),
                forall|a: int| 0 <= a < pi + 1 ==> spec_rank_meta_present(metas@, #[trigger] pids@[a]),
            decreases sorted@.len() - si,
        {
            let mut tl = String::from_str("graph ");
            tl.append(sorted[si].0.as_str());
            let ghost m1 = metas@;
            metas.push(
                TraceMeta { pid, tid: Some(sorted[si].1), label: tl, sort_index: si as u64 },
            );
            proof {
                assert(metas@.last().tid is Some);
                assert forall|k: int| 0 <= k < metas@.len() implies spec_process_meta_form(
                    #[trigger] metas@[k],
                ) by {
                    if k < m1.len() {
                        assert(metas@[k] == m1[k]);
                    }
                }
                assert(spec_process_metas_ascending(metas@)) by {
                    assert forall|k1: int, k2: int|
                        0 <= k1 < k2 < metas@.len() && (#[trigger] metas@[k1]).tid is None && (
                        #[trigger] metas@[k2]).tid is None implies metas@[k1].pid
                        < metas@[k2].pid by {
                        assert(metas@[k1] == m1[k1] && metas@[k2] == m1[k2]);
                    }
                }
                assert forall|k: int|
                    0 <= k < metas@.len() && (#[trigger] metas@[k]).tid is None implies exists|
                    a: int,
                |
                    0 <= a < pi + 1 && pids@[a] == metas@[k].pid by {
                    assert(metas@[k] == m1[k]);
                    let a = choose|a: int| 0 <= a < pi + 1 && pids@[a] == m1[k].pid;
                    assert(0 <= a < pi + 1 && pids@[a] == metas@[k].pid);
                }
                assert forall|a: int| 0 <= a < pi + 1 implies spec_rank_meta_present(
                    metas@,
                    #[trigger] pids@[a],
                ) by {
                    let w = choose|w: int|
                        0 <= w < m1.len() && (#[trigger] m1[w]).pid == pids@[a] && m1[w].tid
                            is None;
                    assert(metas@[w] == m1[w]);
                }
            }
            si = si + 1;
        }
        pi = pi + 1;
    }
    proof {
        assert forall|g: int| 0 <= g < rt@.len() implies spec_rank_meta_present(
            metas@,
            (#[trigger] rt@[g]).rank,
        ) by {
            assert(pid_list@.contains(rt@[g].rank));
            assert(pids@.contains(rt@[g].rank));
            let a = choose|a: int| 0 <= a < pids@.len() && pids@[a] == rt@[g].rank;
            assert(spec_rank_meta_present(metas@, pids@[a]));
        }
    }
    (events, metas)
}

/// Sorts (graph, tid) pairs by graph name, ascending.
fn sort_threads_by_graph(v: Vec<(String, u32)>) -> (r: Vec<(String, u32)>)
    ensures
        r@.len() == v@.len(),
        forall|i: int, j: int|
            0 <= i < j < r@.len() ==> crate::analysis::spec_lex_le(
                (#[trigger] r@[i]).0@,
                (#[trigger] r@[j]).0@,
            ),
{
    let ghost total = v@.len();
    let mut v = v;
    let mut r: Vec<(String, u32)> = Vec::new();
    while v.len() > 0
        invariant
            forall|i: int, j: int|
                0 <= i < j < r@.len() ==> crate::analysis::spec_lex_le(
                    (#[trigger] r@[i]).0@,
                    (#[trigger] r@[j]).0@,
                ),
            r@.len() + v@.len() == total,
        decreases v@.len(),
    {
        let x = v.remove(0);
        let mut j: usize = r.len();
        while j > 0 && !crate::analysis::str_lex_le(r[j - 1].0.as_str(), x.0.as_str())
            invariant
                j <= r@.len(),
                forall|k: int|
                    j <= k < r@.len() ==> !crate::analysis::spec_lex_le(
                        (#[trigger] r@[k]).0@,
                        x.0@,
                    ),
                forall|i: int, jj: int|
                    0 <= i < jj < r@.len() ==> crate::analysis::spec_lex_le(
                        (#[trigger] r@[i]).0@,
                        (#[trigger] r@[jj]).0@,
                    ),
            decreases j,
        {
            j = j - 1;
        }
        let ghost r0 = r@;
        let ghost xg = x;
        r.insert(j, x);
        proof {
            assert(r@ == r0.insert(j as int, xg));
            assert forall|a: int, b: int| 0 <= a < b < r@.len() implies crate::analysis::spec_lex_le(
                (#[trigger] r@[a]).0@,
                (#[trigger] r@[b]).0@,
            ) by {
                if a == j && b > j {
                    assert(r@[b] == r0[b - 1]);
                    crate::analysis::lemma_lex_le_total(r0[b - 1].0@, xg.0@);
                } else if b == j {
                    assert(r@[a] == r0[a]);
                    if j > 0 {
                        assert(crate::analysis::spec_lex_le(r0[j - 1].0@, xg.0@));
                        if a < j - 1 {
                            crate::analysis::lemma_lex_le_trans(r0[a].0@, r0[j - 1].0@, xg.0@);
                        }
                    }
                } else if a < j && b > j {
                    assert(r@[a] == r0[a] && r@[b] == r0[b - 1]);
                    assert(crate::analysis::spec_lex_le(r0[a].0@, r0[b - 1].0@));
                } else if a < j && b < j {
                    assert(r@[a] == r0[a] && r@[b] == r0[b]);
                } else {
                    assert(r@[a] == r0[a - 1] && r@[b] == r0[b - 1]);
                }
            }
        }
    }
    r
}

/// Membership among listed pids.
fn u32_in(l: &Vec<u32>, x: u32) -> (r: bool)
    ensures
        r == l@.contains(x),
{
    let mut i: usize = 0;
    while i < l.len()
        invariant
            i <= l@.len(),
            forall|k: int| 0 <= k < i ==> l@[k] != x,
        decreases l@.len() - i,
    {
        if l[i] == x {
            proof {
                assert(l@[i as int] == x);
            }
            return true;
        }
        i = i + 1;
    }
    false
}

/// Whether a (pid, tid) thread was already recorded.
fn thread_known(l: &Vec<(u32, u32, String)>, pid: u32, tid: u32) -> (r: bool) {
    let mut i: usize = 0;
    while i < l.len()
        decreases l@.len() - i,
    {
        if l[i].0 == pid && l[i].1 == tid {
            return true;
        }
        i = i + 1;
    }
    false
}

} // verus!
