//! Output artifacts and the compile-id-keyed directory.
//!
//! Every file output gets a process-wide strictly increasing sequence
//! number and lands both in the global output list and in the bucket of
//! the current record's normalized compile id.  Records with equal
//! normalized compile ids always land in the same bucket, whatever their
//! arrival order.

use vstd::prelude::*;
use vstd::string::StringExecFns;
use vstd::string::StrSliceExecFns;
use crate::envelope::CompileId;
use crate::strutil::spec_dec;
use crate::strutil::u64_to_string;
use crate::strutil::str_chars;
use crate::strutil::chars_to_string;
use crate::strutil::str_starts_with;
use crate::strutil::str_ends_with;
use crate::strutil::spec_starts_with;
use crate::strutil::spec_ends_with;
use crate::strutil::push_char;

verus! {

/// One entry of the compile directory: a produced file or an external
/// link, with its sequence number and status suffix.
pub struct OutputFile {
    pub url: String,
    pub name: String,
    pub number: u64,
    pub suffix: String,
    pub readable_url: Option<String>,
}

/// The files produced by one pass: (relative path, content).
pub type ParseOutput = Vec<(String, String)>;

impl CompileId {
    /// The id with a missing attempt collapsed to attempt 0, done only
    /// when an inner frame-compile id is present.
    pub open spec fn spec_normalize(self) -> CompileId {
        if self.frame_compile_id is Some && self.attempt is None {
            CompileId { attempt: Some(0u32), ..self }
        } else {
            self
        }
    }

    /// Normalizes the id in place.
    pub fn normalize(&mut self)
        ensures
            *final(self) == old(self).spec_normalize(),
    {
        if self.frame_compile_id.is_some() && self.attempt.is_none() {
            self.attempt = Some(0);
        }
    }

    /// Normalization is idempotent: a second application changes nothing.
    pub proof fn lemma_normalize_idempotent(self)
        ensures
            self.spec_normalize().spec_normalize() == self.spec_normalize(),
    {
    }

    /// One key part in decimal, "-" when absent.
    pub open spec fn spec_part(p: Option<u32>) -> Seq<char> {
        match p {
            Some(n) => spec_dec(n as nat),
            None => "-"@,
        }
    }

    /// The four parts joined with underscores.
    pub open spec fn spec_directory_name(self) -> Seq<char> {
        Self::spec_part(self.compiled_autograd_id) + "_"@ + Self::spec_part(self.frame_id) + "_"@
            + Self::spec_part(self.frame_compile_id) + "_"@ + Self::spec_part(self.attempt)
    }

    fn part_string(p: &Option<u32>) -> (r: String)
        ensures
            r@ == Self::spec_part(*p),
    {
        match p {
            Some(n) => u64_to_string(*n as u64),
            None => {
                proof {
                    reveal_strlit("-");
                }
                let mut s = String::new();
                push_char(&mut s, '-');
                s
            },
        }
    }

    /// The directory name of this id: the four parts joined with
    /// underscores, absent parts written "-".
    pub fn as_directory_name(&self) -> (r: String)
        ensures
            r@ == self.spec_directory_name(),
    {
        proof {
            reveal_strlit("_");
        }
        let mut r = Self::part_string(&self.compiled_autograd_id);
        r.append("_");
        let b = Self::part_string(&self.frame_id);
        r.append(b.as_str());
        r.append("_");
        let c = Self::part_string(&self.frame_compile_id);
        r.append(c.as_str());
        r.append("_");
        let d = Self::part_string(&self.attempt);
        r.append(d.as_str());
        r
    }

    /// The display form of this id; it coincides with the directory name.
    pub fn as_string(&self) -> (r: String)
        ensures
            r@ == self.spec_directory_name(),
    {
        self.as_directory_name()
    }

    /// Structural equality of two ids.
    pub fn id_eq(&self, other: &CompileId) -> (r: bool)
        ensures
            r == (*self == *other),
    {
        opt_u32_eq(&self.compiled_autograd_id, &other.compiled_autograd_id) && opt_u32_eq(
            &self.frame_id,
            &other.frame_id,
        ) && opt_u32_eq(&self.frame_compile_id, &other.frame_compile_id) && opt_u32_eq(
            &self.attempt,
            &other.attempt,
        )
    }
}

/// Structural equality of optional integers.
pub fn opt_u32_eq(a: &Option<u32>, b: &Option<u32>) -> (r: bool)
    ensures
        r == (*a == *b),
{
    match (a, b) {
        (None, None) => true,
        (Some(x), Some(y)) => *x == *y,
        _ => false,
    }
}

/// Structural equality of optional compile ids.
pub fn opt_cid_eq(a: &Option<CompileId>, b: &Option<CompileId>) -> (r: bool)
    ensures
        r == (*a == *b),
{
    match (a, b) {
        (None, None) => true,
        (Some(x), Some(y)) => x.id_eq(y),
        _ => false,
    }
}

/// The ordered directory: one bucket per normalized compile id (or the
/// unknown bucket `None`), in first-arrival order, keys unique.
pub struct CompileDirectory {
    pub entries: Vec<(Option<CompileId>, Vec<OutputFile>)>,
}

/// Keys are pairwise distinct.
pub open spec fn dir_keys_unique(es: Seq<(Option<CompileId>, Vec<OutputFile>)>) -> bool {
    forall|i: int, j: int| 0 <= i < j < es.len() ==> (#[trigger] es[i]).0 != (#[trigger] es[j]).0
}

/// The index of a key, if present.
pub open spec fn dir_index_of(
    es: Seq<(Option<CompileId>, Vec<OutputFile>)>,
    key: Option<CompileId>,
) -> Option<int> {
    if exists|i: int| 0 <= i < es.len() && (#[trigger] es[i]).0 == key {
        Some(choose|i: int| 0 <= i < es.len() && (#[trigger] es[i]).0 == key)
    } else {
        None
    }
}

impl CompileDirectory {
    pub open spec fn wf(&self) -> bool {
        dir_keys_unique(self.entries@)
    }

    pub fn new() -> (r: CompileDirectory)
        ensures
            r.wf(),
            r.entries@.len() == 0,
    {
        CompileDirectory { entries: Vec::new() }
    }

    /// The index of the bucket for a key, creating an empty bucket at
    /// the end when the key is new.  Equal keys always yield the same
    /// bucket index: this is what makes aggregation arrival-order
    /// insensitive.
    pub fn bucket_index(&mut self, key: &Option<CompileId>) -> (idx: usize)
        requires
            old(self).wf(),
        ensures
            final(self).wf(),
            idx < final(self).entries@.len(),
            final(self).entries@[idx as int].0 == *key,
            forall|j: int|
                0 <= j < final(self).entries@.len() && j != idx
                    ==> (#[trigger] final(self).entries@[j]) == old(self).entries@[j],
            (match dir_index_of(old(self).entries@, *key) {
                Some(i) => idx == i && final(self).entries@ == old(self).entries@,
                None => idx == old(self).entries@.len() && final(self).entries@.len() == old(
                    self,
                ).entries@.len() + 1 && final(self).entries@.subrange(
                    0,
                    old(self).entries@.len() as int,
                ) == old(self).entries@ && final(self).entries@[idx as int].1@ == Seq::<
                    OutputFile,
                >::empty(),
            }),
    {
        let mut j: usize = 0;
        while j < self.entries.len()
            invariant
                j <= self.entries@.len(),
                self.entries@ == old(self).entries@,
                old(self).wf(),
                forall|k: int| 0 <= k < j ==> (#[trigger] self.entries@[k]).0 != *key,
            decreases self.entries@.len() - j,
        {
            let hit = opt_cid_eq(&self.entries[j].0, key);
            if hit {
                proof {
                    assert(self.entries@[j as int].0 == *key);
                    assert(old(self).wf());
                    assert(dir_keys_unique(old(self).entries@));
                    assert(self.entries@ == old(self).entries@);
                    assert(dir_keys_unique(self.entries@));
                    let w = choose|i: int|
                        0 <= i < self.entries@.len() && (#[trigger] self.entries@[i]).0 == *key;
                    assert(self.entries@[w].0 == *key);
                    assert(w == j);
                }
                return j;
            }
            j = j + 1;
        }
        proof {
            if exists|i: int|
                0 <= i < self.entries@.len() && (#[trigger] self.entries@[i]).0 == *key {
                let w = choose|i: int|
                    0 <= i < self.entries@.len() && (#[trigger] self.entries@[i]).0 == *key;
                assert(false);
            }
        }
        let idx = self.entries.len();
        self.entries.push((clone_opt_cid(key), Vec::new()));
        proof {
            assert(self.entries@.subrange(0, idx as int) =~= old(self).entries@);
        }
        idx
    }

    /// Appends an artifact to the bucket at `idx`.
    pub fn push_at(&mut self, idx: usize, file: OutputFile)
        requires
            old(self).wf(),
            idx < old(self).entries@.len(),
        ensures
            final(self).wf(),
            final(self).entries@.len() == old(self).entries@.len(),
            final(self).entries@[idx as int].0 == old(self).entries@[idx as int].0,
            final(self).entries@[idx as int].1@ == old(self).entries@[idx as int].1@.push(file),
            forall|j: int|
                0 <= j < final(self).entries@.len() && j != idx
                    ==> (#[trigger] final(self).entries@[j]) == old(self).entries@[j],
    {
        let ghost e0 = self.entries@;
        let mut entry = self.entries.remove(idx);
        entry.1.push(file);
        self.entries.insert(idx, entry);
        proof {
            assert(self.entries@ =~= e0.update(idx as int, self.entries@[idx as int]));
        }
    }

    /// Whether the unknown bucket (no compile id) exists.
    pub fn has_unknown_bucket(&self) -> (r: bool)
        ensures
            r == exists|i: int|
                0 <= i < self.entries@.len() && (#[trigger] self.entries@[i]).0 is None,
    {
        let mut j: usize = 0;
        while j < self.entries.len()
            invariant
                j <= self.entries@.len(),
                forall|k: int| 0 <= k < j ==> !((#[trigger] self.entries@[k]).0 is None),
            decreases self.entries@.len() - j,
        {
            if self.entries[j].0.is_none() {
                return true;
            }
            j = j + 1;
        }
        false
    }
}

/// Deep copy of an optional compile id.
pub fn clone_opt_cid(a: &Option<CompileId>) -> (r: Option<CompileId>)
    ensures
        r == *a,
{
    match a {
        None => None,
        Some(c) => Some(
            CompileId {
                compiled_autograd_id: c.compiled_autograd_id,
                frame_id: c.frame_id,
                frame_compile_id: c.frame_compile_id,
                attempt: c.attempt,
            },
        ),
    }
}

/// Records with equal normalized compile ids aggregate into the same
/// directory bucket, independent of arrival order: the bucket index is a
/// function of the key and the directory state alone.
pub proof fn lemma_equal_ids_same_bucket(
    es: Seq<(Option<CompileId>, Vec<OutputFile>)>,
    a: CompileId,
    b: CompileId,
)
    requires
        a.spec_normalize() == b.spec_normalize(),
    ensures
        dir_index_of(es, Some(a.spec_normalize())) == dir_index_of(es, Some(b.spec_normalize())),
{
}

/// The last path component (after the final '/', or the whole path).
pub open spec fn spec_component_start(p: Seq<char>) -> int
    decreases p.len(),
{
    if p.len() == 0 {
        0
    } else if p.last() == '/' {
        p.len() as int
    } else {
        spec_component_start(p.drop_last())
    }
}

/// The index of the last dot strictly inside `c` (stem/extension split),
/// or -1 when there is no extension.
pub open spec fn spec_dot_split(c: Seq<char>) -> int
    decreases c.len(),
{
    if c.len() <= 1 {
        -1
    } else if c.last() == '.' {
        (c.len() - 1) as int
    } else {
        spec_dot_split(c.drop_last())
    }
}

/// The path with "_<n>" appended to the file stem: disambiguates
/// same-named outputs by their sequence number.
pub open spec fn spec_add_unique_suffix(p: Seq<char>, n: nat) -> Seq<char> {
    let cs = spec_component_start(p);
    let c = p.subrange(cs, p.len() as int);
    if c.len() == 0 {
        p
    } else {
        let d = spec_dot_split(c);
        if d < 0 {
            p + "_"@ + spec_dec(n)
        } else {
            p.subrange(0, cs) + c.subrange(0, d) + "_"@ + spec_dec(n) + "."@ + c.subrange(
                d + 1,
                c.len() as int,
            )
        }
    }
}

/// The component start lies within the path.
proof fn lemma_component_start_le(p: Seq<char>)
    ensures
        0 <= spec_component_start(p) <= p.len(),
    decreases p.len(),
{
    if p.len() > 0 && p.last() != '/' {
        lemma_component_start_le(p.drop_last());
    }
}

/// Exec scan for the final path component.
pub(crate) fn component_start(v: &Vec<char>) -> (r: usize)
    ensures
        r == spec_component_start(v@),
        r <= v@.len(),
{
    let mut i = v.len();
    proof {
        assert(v@.subrange(0, v@.len() as int) =~= v@);
        lemma_component_start_le(v@.subrange(0, i as int));
    }
    while i > 0 && v[i - 1] != '/'
        invariant
            i <= v@.len(),
            spec_component_start(v@) == spec_component_start(v@.subrange(0, i as int)),
            spec_component_start(v@.subrange(0, i as int)) <= i,
        decreases i,
    {
        proof {
            assert(v@.subrange(0, i as int).last() == v@[i - 1]);
            assert(v@.subrange(0, i as int).drop_last() =~= v@.subrange(0, i - 1));
            lemma_component_start_le(v@.subrange(0, i - 1));
        }
        i = i - 1;
    }
    proof {
        if i > 0 {
            assert(v@.subrange(0, i as int).last() == v@[i - 1]);
        }
        assert(spec_component_start(v@.subrange(0, i as int)) == i);
    }
    i
}

/// The dot split lies within the component.
proof fn lemma_dot_split_le(c: Seq<char>)
    ensures
        -1 <= spec_dot_split(c) < c.len() || (c.len() == 0 && spec_dot_split(c) == -1),
    decreases c.len(),
{
    if c.len() > 1 && c.last() != '.' {
        lemma_dot_split_le(c.drop_last());
    }
}

/// Exec scan for the stem/extension split of a component.
pub(crate) fn dot_split(v: &Vec<char>, cs: usize) -> (r: Option<usize>)
    requires
        cs <= v@.len(),
    ensures
        ({
            let c = v@.subrange(cs as int, v@.len() as int);
            match r {
                Some(d) => cs <= d < v@.len() && d - cs == spec_dot_split(c),
                None => spec_dot_split(c) < 0,
            }
        }),
{
    let ghost c = v@.subrange(cs as int, v@.len() as int);
    proof {
        lemma_dot_split_le(c);
    }
    let mut i = v.len();
    proof {
        assert(c.subrange(0, i - cs) =~= c);
        lemma_dot_split_le(c.subrange(0, i - cs));
    }
    while i > 0 && i - 1 > cs && v[i - 1] != '.'
        invariant
            cs <= v@.len(),
            cs <= i <= v@.len(),
            c == v@.subrange(cs as int, v@.len() as int),
            spec_dot_split(c) == spec_dot_split(c.subrange(0, i - cs)),
            spec_dot_split(c.subrange(0, i - cs)) < i - cs,
        decreases i,
    {
        proof {
            assert(c.subrange(0, i - cs).last() == c[i - 1 - cs]);
            assert(c[i - 1 - cs] == v@[i - 1]);
            assert(c.subrange(0, i - cs).drop_last() =~= c.subrange(0, i - 1 - cs));
            lemma_dot_split_le(c.subrange(0, i - 1 - cs));
        }
        i = i - 1;
    }
    proof {
        if i - cs > 1 {
            assert(c.subrange(0, i - cs).last() == c[i - 1 - cs]);
            assert(c[i - 1 - cs] == v@[i - 1]);
        } else {
            assert(c.subrange(0, i - cs).len() <= 1);
        }
    }
    if i >= 1 && i - 1 > cs {
        proof {
            assert(spec_dot_split(c.subrange(0, i - cs)) == i - 1 - cs);
        }
        Some(i - 1)
    } else {
        proof {
            assert(spec_dot_split(c.subrange(0, i - cs)) == -1);
        }
        None
    }
}

/// Appends "_<count>" to the file stem of a path, keeping any extension:
/// gives same-named outputs distinct names tied to their sequence number.
pub fn add_unique_suffix(raw_filename: String, output_count: u64) -> (r: String)
    ensures
        r@ == spec_add_unique_suffix(raw_filename@, output_count as nat),
{
    proof {
        reveal_strlit("_");
        reveal_strlit(".");
    }
    let v = str_chars(raw_filename.as_str());
    let cs = component_start(&v);
    if cs == v.len() {
        proof {
            assert(v@.subrange(cs as int, v@.len() as int).len() == 0);
        }
        return raw_filename;
    }
    let num = u64_to_string(output_count);
    match dot_split(&v, cs) {
        None => {
            let ghost p0 = raw_filename@;
            let mut r = raw_filename;
            r.append("_");
            r.append(num.as_str());
            proof {
                assert(r@ =~= spec_add_unique_suffix(p0, output_count as nat));
            }
            r
        },
        Some(d) => {
            let ghost pv = v@;
            proof {
                lemma_dot_split_le(pv.subrange(cs as int, pv.len() as int));
            }
            let mut head: Vec<char> = Vec::new();
            let mut i: usize = 0;
            while i < d
                invariant
                    i <= d <= pv.len(),
                    pv == v@,
                    head@ == pv.subrange(0, i as int),
                decreases d - i,
            {
                head.push(v[i]);
                i = i + 1;
                proof {
                    assert(head@ =~= pv.subrange(0, i as int));
                }
            }
            let mut r = chars_to_string(&head);
            r.append("_");
            r.append(num.as_str());
            r.append(".");
            let mut tail: Vec<char> = Vec::new();
            let mut j: usize = d + 1;
            while j < v.len()
                invariant
                    d + 1 <= j <= pv.len(),
                    pv == v@,
                    tail@ == pv.subrange(d + 1, j as int),
                decreases pv.len() - j,
            {
                tail.push(v[j]);
                j = j + 1;
                proof {
                    assert(tail@ =~= pv.subrange(d + 1, j as int));
                }
            }
            let ts = chars_to_string(&tail);
            r.append(ts.as_str());
            proof {
                let c = pv.subrange(cs as int, pv.len() as int);
                let dd = spec_dot_split(c);
                assert(c.subrange(0, dd) =~= pv.subrange(cs as int, d as int));
                assert(c.subrange(dd + 1, c.len() as int) =~= pv.subrange(d + 1, pv.len() as int));
                assert(pv.subrange(0, cs as int) + pv.subrange(cs as int, d as int) =~= pv.subrange(
                    0,
                    d as int,
                ));
                assert(r@ =~= spec_add_unique_suffix(pv, output_count as nat));
            }
            r
        },
    }
}

/// Whether a path names a kernel stack-traces artifact: the final
/// component starts with the stack-traces prefix and ends in ".json".
pub open spec fn spec_is_stack_traces_name(p: Seq<char>) -> bool {
    let c = p.subrange(spec_component_start(p), p.len() as int);
    spec_starts_with(c, "inductor_provenance_tracking_kernel_stack_traces"@) && spec_ends_with(
        c,
        ".json"@,
    )
}

/// Exec test for a kernel stack-traces artifact name.
pub fn is_stack_traces_file(path: &String) -> (r: bool)
    ensures
        r == spec_is_stack_traces_name(path@),
{
    let v = str_chars(path.as_str());
    let cs = component_start(&v);
    let mut comp: Vec<char> = Vec::new();
    let mut i = cs;
    while i < v.len()
        invariant
            cs <= i <= v@.len(),
            comp@ == v@.subrange(cs as int, i as int),
        decreases v@.len() - i,
    {
        comp.push(v[i]);
        i = i + 1;
        proof {
            assert(comp@ =~= v@.subrange(cs as int, i as int));
        }
    }
    let comp_s = chars_to_string(&comp);
    let a = str_starts_with(comp_s.as_str(), "inductor_provenance_tracking_kernel_stack_traces");
    let b = str_ends_with(comp_s.as_str(), ".json");
    a && b
}

} // verus!
