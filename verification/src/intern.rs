//! Process-pass-scoped string intern table.
//!
//! Dedicated side-channel log records insert (id, string) pairs; later
//! records refer to strings by integer id.  Resolving an id that was never
//! inserted yields a defined fallback, never an error.  At the end of a
//! pass the table is serialized as a dense array sized to (max id + 1),
//! with unused indices empty.

use vstd::prelude::*;
use vstd::string::StringExecFns;

verus! {

/// What resolving a never-inserted id returns.
pub open spec fn spec_intern_fallback() -> Seq<char> {
    "(unknown)"@
}

/// The string an id maps to: the last inserted entry for that id wins.
pub open spec fn spec_lookup(entries: Seq<(u32, String)>, id: u32) -> Option<Seq<char>>
    decreases entries.len(),
{
    if entries.len() == 0 {
        None
    } else if entries.last().0 == id {
        Some(entries.last().1@)
    } else {
        spec_lookup(entries.drop_last(), id)
    }
}

/// No entry carries the id.
pub open spec fn spec_id_absent(entries: Seq<(u32, String)>, id: u32) -> bool {
    forall|k: int| 0 <= k < entries.len() ==> (#[trigger] entries[k]).0 != id
}

/// Resolution of a never-inserted id finds nothing (the resolver then
/// returns the defined fallback rather than failing).
pub proof fn lemma_lookup_absent(entries: Seq<(u32, String)>, id: u32)
    requires
        spec_id_absent(entries, id),
    ensures
        spec_lookup(entries, id) is None,
    decreases entries.len(),
{
    if entries.len() > 0 {
        assert(entries[entries.len() - 1].0 != id);
        assert forall|k: int|
            0 <= k < entries.drop_last().len() implies (#[trigger] entries.drop_last()[k]).0
            != id by {
            assert(entries.drop_last()[k] == entries[k]);
        }
        lemma_lookup_absent(entries.drop_last(), id);
    }
}

/// Intern round trip: after inserting a string under an id, resolving
/// that id yields exactly that string, however many entries for other
/// ids follow the insertion.
pub proof fn lemma_intern_round_trip(
    entries: Seq<(u32, String)>,
    id: u32,
    s: String,
    later: Seq<(u32, String)>,
)
    requires
        spec_id_absent(later, id),
    ensures
        spec_lookup(entries.push((id, s)) + later, id) == Some(s@),
    decreases later.len(),
{
    if later.len() == 0 {
        assert(entries.push((id, s)) + later =~= entries.push((id, s)));
        assert((entries.push((id, s))).last() == (id, s));
    } else {
        assert(later[later.len() - 1].0 != id);
        assert forall|k: int|
            0 <= k < later.drop_last().len() implies (#[trigger] later.drop_last()[k]).0 != id by {
            assert(later.drop_last()[k] == later[k]);
        }
        lemma_intern_round_trip(entries, id, s, later.drop_last());
        let whole = entries.push((id, s)) + later;
        assert(whole.last() == later.last());
        assert(whole.drop_last() =~= entries.push((id, s)) + later.drop_last());
    }
}

/// The largest inserted id (0 for an empty table).
pub open spec fn spec_max_id(entries: Seq<(u32, String)>) -> u32
    decreases entries.len(),
{
    if entries.len() == 0 {
        0u32
    } else if entries.last().0 > spec_max_id(entries.drop_last()) {
        entries.last().0
    } else {
        spec_max_id(entries.drop_last())
    }
}

/// Append-only id-to-string table, scoped to one interpreter pass.
pub struct InternTable {
    entries: Vec<(u32, String)>,
}

impl InternTable {
    /// The inserted (id, string) pairs, in insertion order.
    pub closed spec fn view(&self) -> Seq<(u32, String)> {
        self.entries@
    }

    /// An empty table.
    pub fn new() -> (r: InternTable)
        ensures
            r@ == Seq::<(u32, String)>::empty(),
    {
        InternTable { entries: Vec::new() }
    }

    /// Records one side-channel (id, string) insertion.
    pub fn insert(&mut self, id: u32, s: String)
        ensures
            final(self)@ == old(self)@.push((id, s)),
            spec_lookup(final(self)@, id) == Some::<Seq<char>>(s@),
    {
        self.entries.push((id, s));
        proof {
            assert(self.entries@.last() == (id, s));
        }
    }

    /// Resolves an id; a never-inserted id yields the fallback string.
    pub fn resolve(&self, id: u32) -> (r: String)
        ensures
            r@ == match spec_lookup(self@, id) {
                Some(s) => s,
                None => spec_intern_fallback(),
            },
    {
        let mut i: usize = self.entries.len();
        proof {
            assert(self.entries@.subrange(0, self.entries@.len() as int) =~= self.entries@);
        }
        while i > 0
            invariant
                i <= self.entries@.len(),
                spec_lookup(self.entries@.subrange(0, i as int), id) == spec_lookup(
                    self.entries@,
                    id,
                ),
            decreases i,
        {
            i = i - 1;
            let hit = self.entries[i].0 == id;
            proof {
                assert(self.entries@.subrange(0, i + 1).drop_last() =~= self.entries@.subrange(
                    0,
                    i as int,
                ));
                assert(self.entries@.subrange(0, i + 1).last() == self.entries@[i as int]);
            }
            if hit {
                return self.entries[i].1.clone();
            }
        }
        proof {
            assert(self.entries@.subrange(0, 0) =~= Seq::<(u32, String)>::empty());
        }
        String::from_str("(unknown)")
    }

    /// The largest inserted id, or 0 when the table is empty.
    pub fn max_id(&self) -> (r: u32)
        ensures
            r == spec_max_id(self@),
            forall|k: int| 0 <= k < self@.len() ==> self@[k].0 <= r,
    {
        let mut r: u32 = 0;
        let mut j: usize = 0;
        proof {
            assert(self.entries@.subrange(0, 0) =~= Seq::<(u32, String)>::empty());
        }
        while j < self.entries.len()
            invariant
                j <= self.entries@.len(),
                forall|k: int| 0 <= k < j ==> self.entries@[k].0 <= r,
                r == spec_max_id(self.entries@.subrange(0, j as int)),
            decreases self.entries@.len() - j,
        {
            if self.entries[j].0 > r {
                r = self.entries[j].0;
            }
            j = j + 1;
            proof {
                assert(self.entries@.subrange(0, j as int).drop_last() =~= self.entries@.subrange(
                    0,
                    j - 1,
                ));
                assert(self.entries@.subrange(0, j as int).last() == self.entries@[j - 1]);
            }
        }
        proof {
            assert(self.entries@.subrange(0, self.entries@.len() as int) =~= self.entries@);
        }
        r
    }

    /// Serializes the table as a dense array sized to (max id + 1), with
    /// unused indices `None`.  An empty table yields one `None` slot.
    /// (On a target whose address width cannot hold max id + 1 slots, the
    /// table is capped at the largest representable length.)
    pub fn string_table(&self) -> (r: Vec<Option<String>>)
        ensures
            r@.len() == (if (spec_max_id(self@) as nat) + 1 <= usize::MAX as nat {
                spec_max_id(self@) as nat + 1
            } else {
                usize::MAX as nat
            }),
            forall|k: int|
                0 <= k < self@.len() ==> (#[trigger] self@[k].0 as nat) + 1 <= usize::MAX as nat
                    ==> self@[k].0 < r@.len(),
            forall|i: int|
                0 <= i < r@.len() ==> (match #[trigger] r@[i] {
                    Some(s) => spec_lookup(self@, i as u32) == Some(s@),
                    None => spec_lookup(self@, i as u32) is None,
                }),
    {
        let max = self.max_id();
        let max_usize: usize = max as usize;
        let len: usize = if max_usize < usize::MAX {
            max_usize + 1
        } else {
            max_usize
        };
        let mut r: Vec<Option<String>> = Vec::new();
        let mut i: usize = 0;
        while i < len
            invariant
                i <= len,
                r@.len() == i,
                forall|k: int| 0 <= k < i ==> r@[k] is None,
            decreases len - i,
        {
            r.push(None);
            i = i + 1;
        }
        proof {
            assert(self@.subrange(0, 0) =~= Seq::<(u32, String)>::empty());
            assert forall|k: int| 0 <= k < r@.len() implies #[trigger] spec_lookup(
                self@.subrange(0, 0),
                k as u32,
            ) is None by {}
        }
        let mut j: usize = 0;
        while j < self.entries.len()
            invariant
                j <= self.entries@.len(),
                r@.len() == len,
                len >= 1,
                len == if (max as nat) + 1 <= usize::MAX as nat {
                    max as nat + 1
                } else {
                    usize::MAX as nat
                },
                forall|k: int| 0 <= k < self@.len() ==> #[trigger] self@[k].0 <= max,
                forall|i: int|
                    0 <= i < r@.len() ==> (match #[trigger] r@[i] {
                        Some(s) => spec_lookup(self@.subrange(0, j as int), i as u32) == Some(s@),
                        None => spec_lookup(self@.subrange(0, j as int), i as u32) is None,
                    }),
            decreases self.entries@.len() - j,
        {
            let id = self.entries[j].0;
            let s = self.entries[j].1.clone();
            if (id as usize) < len {
                r.set(id as usize, Some(s));
            }
            j = j + 1;
            proof {
                let pre = self@.subrange(0, j - 1);
                let post = self@.subrange(0, j as int);
                assert(post.drop_last() =~= pre);
                assert(post.last() == self@[j - 1]);
                assert forall|i: int| 0 <= i < r@.len() && i != id implies #[trigger] spec_lookup(
                    post,
                    i as u32,
                ) == spec_lookup(pre, i as u32) by {
                    assert(i <= u32::MAX);
                    assert(post.last().0 == id);
                }
            }
        }
        proof {
            assert(self@.subrange(0, self@.len() as int) =~= self@);
        }
        r
    }
}

} // verus!
