//! Generic signature-to-rank-group bucketing, reused for compile-id
//! sets, cache sequences, collective schedules and tensor-meta
//! fingerprints, plus the assembly of those signatures.

use vstd::prelude::*;
use vstd::string::StringExecFns;
use crate::analysis::sorted_u32;
use crate::analysis::sort_u32;
use crate::strutil::spec_dec;
use crate::strutil::u64_to_string;
use crate::strutil::str_eq;

verus! {

/// One group of ranks sharing a signature value; never mutated after
/// creation.
pub struct DivergenceGroup {
    pub sequence: String,
    pub ranks: Vec<u32>,
}

/// The ranks paired with a given signature, in input order.
pub open spec fn ranks_with(pairs: Seq<(u32, String)>, sig: Seq<char>) -> Seq<u32>
    decreases pairs.len(),
{
    if pairs.len() == 0 {
        Seq::empty()
    } else {
        ranks_with(pairs.drop_last(), sig) + (if pairs.last().1@ == sig {
            seq![pairs.last().0]
        } else {
            Seq::empty()
        })
    }
}

/// Whether some pair carries the given signature.
pub open spec fn sig_present(pairs: Seq<(u32, String)>, sig: Seq<char>) -> bool {
    exists|k: int| 0 <= k < pairs.len() && (#[trigger] pairs[k]).1@ == sig
}

/// Whether some group carries the given signature.
pub open spec fn group_has_sig(groups: Seq<DivergenceGroup>, sig: Seq<char>) -> bool {
    exists|g: int| 0 <= g < groups.len() && (#[trigger] groups[g]).sequence@ == sig
}

/// Every one of the first `upto` pairs finds a group with its signature.
pub open spec fn sigs_cover(pairs: Seq<(u32, String)>, upto: int, groups: Seq<DivergenceGroup>) -> bool {
    forall|k: int| 0 <= k < upto ==> group_has_sig(groups, (#[trigger] pairs[k]).1@)
}

/// The groups carry pairwise distinct signatures; every input signature
/// has its group; each group holds exactly the ranks that reported its
/// signature, ascending.
pub open spec fn is_grouping(pairs: Seq<(u32, String)>, groups: Seq<DivergenceGroup>) -> bool {
    &&& (forall|g1: int, g2: int|
        0 <= g1 < g2 < groups.len() ==> (#[trigger] groups[g1]).sequence@ != (
        #[trigger] groups[g2]).sequence@)
    &&& (forall|g: int| 0 <= g < groups.len() ==> sig_present(pairs, (#[trigger] groups[g]).sequence@))
    &&& sigs_cover(pairs, pairs.len() as int, groups)
    &&& (forall|g: int| 0 <= g < groups.len() ==> sorted_u32((#[trigger] groups[g]).ranks@))
    &&& (forall|g: int|
        0 <= g < groups.len() ==> (#[trigger] groups[g]).ranks@.to_multiset() == ranks_with(
            pairs,
            groups[g].sequence@,
        ).to_multiset())
}

proof fn lemma_ranks_with_snoc_other(pairs: Seq<(u32, String)>, sig: Seq<char>)
    requires
        pairs.len() >= 1,
        pairs.last().1@ != sig,
    ensures
        ranks_with(pairs, sig) == ranks_with(pairs.drop_last(), sig),
{
    assert(ranks_with(pairs, sig) =~= ranks_with(pairs.drop_last(), sig));
}

proof fn lemma_ranks_with_absent(pairs: Seq<(u32, String)>, sig: Seq<char>)
    requires
        !sig_present(pairs, sig),
    ensures
        ranks_with(pairs, sig) == Seq::<u32>::empty(),
    decreases pairs.len(),
{
    if pairs.len() > 0 {
        assert(pairs[pairs.len() - 1].1@ != sig);
        assert forall|k: int|
            0 <= k < pairs.drop_last().len() implies (#[trigger] pairs.drop_last()[k]).1@
            != sig by {
            assert(pairs[k].1@ == pairs.drop_last()[k].1@);
        }
        lemma_ranks_with_absent(pairs.drop_last(), sig);
        assert(ranks_with(pairs, sig) =~= Seq::<u32>::empty());
    } else {
        assert(ranks_with(pairs, sig) =~= Seq::<u32>::empty());
    }
}

/// Coverage only depends on the groups' signatures.
proof fn lemma_cover_same_sequences(
    pairs: Seq<(u32, String)>,
    upto: int,
    a: Seq<DivergenceGroup>,
    b: Seq<DivergenceGroup>,
)
    requires
        sigs_cover(pairs, upto, a),
        a.len() == b.len(),
        forall|g: int| 0 <= g < a.len() ==> (#[trigger] a[g]).sequence@ == b[g].sequence@,
    ensures
        sigs_cover(pairs, upto, b),
{
    assert forall|k: int| 0 <= k < upto implies group_has_sig(b, (#[trigger] pairs[k]).1@) by {
        assert(group_has_sig(a, pairs[k].1@));
        let g0 = choose|g0: int| 0 <= g0 < a.len() && (#[trigger] a[g0]).sequence@ == pairs[k].1@;
        assert(b[g0].sequence@ == pairs[k].1@);
    }
}

/// Buckets (rank, signature) pairs into one group per distinct
/// signature, ranks ascending within each group.  For identical inputs
/// the group contents are identical; only the order of the groups
/// themselves is unspecified.
pub fn group_by_signature(pairs: &Vec<(u32, String)>) -> (groups: Vec<DivergenceGroup>)
    ensures
        is_grouping(pairs@, groups@),
{
    let mut acc: Vec<DivergenceGroup> = Vec::new();
    let mut i: usize = 0;
    while i < pairs.len()
        invariant
            i <= pairs@.len(),
            (forall|g1: int, g2: int|
                0 <= g1 < g2 < acc@.len() ==> (#[trigger] acc@[g1]).sequence@ != (
                #[trigger] acc@[g2]).sequence@),
            (forall|g: int|
                0 <= g < acc@.len() ==> sig_present(
                    pairs@.subrange(0, i as int),
                    (#[trigger] acc@[g]).sequence@,
                )),
            sigs_cover(pairs@, i as int, acc@),
            (forall|g: int|
                0 <= g < acc@.len() ==> (#[trigger] acc@[g]).ranks@ == ranks_with(
                    pairs@.subrange(0, i as int),
                    acc@[g].sequence@,
                )),
        decreases pairs@.len() - i,
    {
        let ghost pre = pairs@.subrange(0, i as int);
        let ghost post = pairs@.subrange(0, i + 1);
        let ghost cur = pairs@[i as int];
        proof {
            assert(post.drop_last() =~= pre);
            assert(post.last() == cur);
            assert(ranks_with(post, cur.1@) =~= ranks_with(pre, cur.1@) + seq![cur.0]);
            assert forall|sig: Seq<char>| sig_present(pre, sig) implies sig_present(post, sig) by {
                let k = choose|k: int| 0 <= k < pre.len() && (#[trigger] pre[k]).1@ == sig;
                assert(post[k].1@ == sig);
            }
            assert(sig_present(post, cur.1@)) by {
                assert(post[i as int].1@ == cur.1@);
            }
        }
        let rank = pairs[i].0;
        let sig = pairs[i].1.clone();
        let mut j: usize = 0;
        let mut found = false;
        while j < acc.len() && !found
            invariant
                j <= acc@.len(),
                !found ==> forall|g: int| 0 <= g < j ==> (#[trigger] acc@[g]).sequence@ != sig@,
                found ==> j < acc@.len() && acc@[j as int].sequence@ == sig@,
                sig@ == cur.1@,
            decreases acc@.len() - j + (if found {
                0int
            } else {
                1int
            }),
        {
            if str_eq(acc[j].sequence.as_str(), sig.as_str()) {
                found = true;
            } else {
                j = j + 1;
            }
        }
        if found {
            let ghost a0 = acc@;
            let mut grp = acc.remove(j);
            grp.ranks.push(rank);
            proof {
                assert(grp.ranks@ =~= ranks_with(post, grp.sequence@));
            }
            acc.insert(j, grp);
            proof {
                assert(acc@ =~= a0.update(j as int, grp));
                assert forall|g: int| 0 <= g < acc@.len() implies (#[trigger] acc@[g]).ranks@
                    == ranks_with(post, acc@[g].sequence@) by {
                    if g != j {
                        assert(acc@[g] == a0[g]);
                        assert(acc@[g].sequence@ != cur.1@);
                        lemma_ranks_with_snoc_other(post, acc@[g].sequence@);
                    }
                }
                assert forall|k: int| 0 <= k < i + 1 implies group_has_sig(
                    acc@,
                    (#[trigger] pairs@[k]).1@,
                ) by {
                    if k < i {
                        assert(group_has_sig(a0, pairs@[k].1@));
                        let g = choose|g: int|
                            0 <= g < a0.len() && (#[trigger] a0[g]).sequence@ == pairs@[k].1@;
                        assert(acc@[g].sequence@ == pairs@[k].1@);
                    } else {
                        assert(acc@[j as int].sequence@ == pairs@[k].1@);
                    }
                }
            }
        } else {
            let ghost a0 = acc@;
            let mut ranks: Vec<u32> = Vec::new();
            ranks.push(rank);
            acc.push(DivergenceGroup { sequence: sig, ranks });
            proof {
                assert(!sig_present(pre, cur.1@)) by {
                    if sig_present(pre, cur.1@) {
                        let k = choose|k: int| 0 <= k < pre.len() && (#[trigger] pre[k]).1@ == cur.1@;
                        assert(false);
                    }
                }
                lemma_ranks_with_absent(pre, cur.1@);
                assert(acc@.last().ranks@ =~= ranks_with(post, cur.1@));
                assert forall|g: int| 0 <= g < acc@.len() - 1 implies (#[trigger] acc@[g]).ranks@
                    == ranks_with(post, acc@[g].sequence@) by {
                    assert(acc@[g] == a0[g]);
                    assert(acc@[g].sequence@ != cur.1@);
                    lemma_ranks_with_snoc_other(post, acc@[g].sequence@);
                }
                assert forall|k: int| 0 <= k < i + 1 implies group_has_sig(
                    acc@,
                    (#[trigger] pairs@[k]).1@,
                ) by {
                    if k < i {
                        assert(group_has_sig(a0, pairs@[k].1@));
                        let g = choose|g: int|
                            0 <= g < a0.len() && (#[trigger] a0[g]).sequence@ == pairs@[k].1@;
                        assert(acc@[g].sequence@ == pairs@[k].1@);
                    } else {
                        assert(acc@[acc@.len() - 1].sequence@ == pairs@[k].1@);
                    }
                }
            }
        }
        i = i + 1;
    }
    proof {
        assert(pairs@.subrange(0, pairs@.len() as int) =~= pairs@);
        assert(i == pairs@.len());
        assert(sigs_cover(pairs@, pairs@.len() as int, acc@));
    }
    let mut g: usize = 0;
    while g < acc.len()
        invariant
            g <= acc@.len(),
            (forall|g1: int, g2: int|
                0 <= g1 < g2 < acc@.len() ==> (#[trigger] acc@[g1]).sequence@ != (
                #[trigger] acc@[g2]).sequence@),
            (forall|k: int|
                0 <= k < acc@.len() ==> sig_present(pairs@, (#[trigger] acc@[k]).sequence@)),
            sigs_cover(pairs@, pairs@.len() as int, acc@),
            (forall|k: int| 0 <= k < g ==> sorted_u32((#[trigger] acc@[k]).ranks@)),
            (forall|k: int|
                0 <= k < g ==> (#[trigger] acc@[k]).ranks@.to_multiset() == ranks_with(
                    pairs@,
                    acc@[k].sequence@,
                ).to_multiset()),
            (forall|k: int|
                g <= k < acc@.len() ==> (#[trigger] acc@[k]).ranks@ == ranks_with(
                    pairs@,
                    acc@[k].sequence@,
                )),
        decreases acc@.len() - g,
    {
        let ghost a0 = acc@;
        let grp = acc.remove(g);
        let sorted = sort_u32(grp.ranks);
        let newg = DivergenceGroup { sequence: grp.sequence, ranks: sorted };
        let ghost ng = newg;
        acc.insert(g, newg);
        proof {
            assert(acc@ =~= a0.update(g as int, ng));
            assert forall|k: int| 0 <= k < acc@.len() implies (#[trigger] acc@[k]).sequence@
                == a0[k].sequence@ by {}
            lemma_cover_same_sequences(pairs@, pairs@.len() as int, a0, acc@);
        }
        g = g + 1;
    }
    acc
}

/// Whether the signatures diverge: more than one distinct value.
pub fn is_divergent(pairs: &Vec<(u32, String)>) -> (r: bool)
    ensures
        r == exists|k1: int, k2: int|
            0 <= k1 < pairs@.len() && 0 <= k2 < pairs@.len() && (#[trigger] pairs@[k1]).1@ != (
            #[trigger] pairs@[k2]).1@,
{
    if pairs.len() == 0 {
        return false;
    }
    let mut k: usize = 1;
    while k < pairs.len()
        invariant
            1 <= k <= pairs@.len(),
            forall|j: int| 0 <= j < k ==> (#[trigger] pairs@[j]).1@ == pairs@[0].1@,
        decreases pairs@.len() - k,
    {
        if !str_eq(pairs[k].1.as_str(), pairs[0].1.as_str()) {
            return true;
        }
        k = k + 1;
    }
    false
}

/// The text "a, b, c" for ranks [a, b, c].
pub open spec fn spec_ranks_string(ranks: Seq<u32>) -> Seq<char>
    decreases ranks.len(),
{
    if ranks.len() == 0 {
        Seq::empty()
    } else if ranks.len() == 1 {
        spec_dec(ranks[0] as nat)
    } else {
        spec_ranks_string(ranks.drop_last()) + ", "@ + spec_dec(ranks.last() as nat)
    }
}

impl DivergenceGroup {
    /// The group's ranks as a comma-separated decimal list.
    pub fn ranks_string(&self) -> (r: String)
        ensures
            r@ == spec_ranks_string(self.ranks@),
    {
        let mut r = String::new();
        let mut i: usize = 0;
        proof {
            reveal_strlit(", ");
        }
        while i < self.ranks.len()
            invariant
                i <= self.ranks@.len(),
                r@ == spec_ranks_string(self.ranks@.subrange(0, i as int)),
            decreases self.ranks@.len() - i,
        {
            if i > 0 {
                r.append(", ");
            }
            let d = u64_to_string(self.ranks[i] as u64);
            r.append(d.as_str());
            proof {
                reveal_strlit(", ");
                let post = self.ranks@.subrange(0, i + 1);
                assert(post.drop_last() =~= self.ranks@.subrange(0, i as int));
                assert(post.last() == self.ranks@[i as int]);
                assert(r@ =~= spec_ranks_string(post));
            }
            i = i + 1;
        }
        proof {
            assert(self.ranks@.subrange(0, self.ranks@.len() as int) =~= self.ranks@);
        }
        r
    }
}

} // verus!
