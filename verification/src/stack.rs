//! Stack summaries and the stack trie.
//!
//! Stacks arrive as lists of frames with interned filenames.  The trie
//! groups stacks by shared prefixes; it is an arena of nodes addressed
//! by index, where a child's index is always greater than its parent's,
//! so traversal terminates without a pointer graph.

use vstd::prelude::*;
use vstd::string::StringExecFns;
use vstd::string::StrSliceExecFns;
use crate::envelope::FrameSummary;
use crate::envelope::StackSummary;
use crate::envelope::CompileId;
use crate::intern::InternTable;
use crate::intern::spec_lookup;
use crate::intern::spec_intern_fallback;
use crate::strutil::str_chars;
use crate::strutil::chars_to_string;
use crate::strutil::spec_match_at;
use crate::strutil::str_eq;
use crate::strutil::u64_to_string;
use crate::output::escape_text;

verus! {

/// The string a frame's interned filename id resolves to.
pub open spec fn spec_resolved_filename(
    intern: Seq<(u32, String)>,
    f: FrameSummary,
) -> Seq<char> {
    match f.uninterned_filename {
        Some(s) => s@,
        None => match spec_lookup(intern, f.filename) {
            Some(s) => s,
            None => spec_intern_fallback(),
        },
    }
}

/// The filename with everything up to and including the last
/// "site-packages/" or "dist-packages/" marker removed.
pub open spec fn spec_simplify_filename(s: Seq<char>) -> Seq<char> {
    let a = spec_after_marker(s, "site-packages/"@);
    let b = spec_after_marker(a, "dist-packages/"@);
    b
}

/// The text after the last occurrence of the marker, or the whole text.
pub open spec fn spec_after_marker(s: Seq<char>, marker: Seq<char>) -> Seq<char> {
    if exists|i: int| spec_match_at(s, marker, i) {
        let i = spec_last_match(s, marker);
        s.subrange(i + marker.len(), s.len() as int)
    } else {
        s
    }
}

/// The largest match position of the marker.
pub open spec fn spec_last_match(s: Seq<char>, marker: Seq<char>) -> int {
    choose|i: int|
        spec_match_at(s, marker, i) && (forall|j: int| spec_match_at(s, marker, j) ==> j <= i)
}

/// The text after the last occurrence of a marker; the whole text when
/// the marker does not occur.
pub fn after_marker(s: &str, marker: &str) -> (r: String)
    ensures
        r@ == spec_after_marker(s@, marker@),
{
    let sv = str_chars(s);
    let mv = str_chars(marker);
    if mv.len() > sv.len() {
        proof {
            assert forall|i: int| !spec_match_at(sv@, mv@, i) by {}
        }
        return String::from_str(s);
    }
    if mv.len() == 0 {
        proof {
            assert(spec_match_at(sv@, mv@, sv@.len() as int)) by {
                assert(sv@.subrange(sv@.len() as int, sv@.len() as int) =~= mv@);
            }
            let w = spec_last_match(sv@, mv@);
            assert(spec_match_at(sv@, mv@, sv@.len() as int) && (forall|j: int|
                spec_match_at(sv@, mv@, j) ==> j <= sv@.len()));
            assert(w == sv@.len());
            assert(sv@.subrange(sv@.len() as int, sv@.len() as int) =~= Seq::<char>::empty());
        }
        return String::new();
    }
    let bound = sv.len() - mv.len();
    let mut best: Option<usize> = None;
    let mut i: usize = 0;
    while i <= bound
        invariant
            mv@.len() <= sv@.len(),
            bound == sv@.len() - mv@.len(),
            bound < usize::MAX,
            i <= bound + 1,
            (match best {
                Some(b) => spec_match_at(sv@, mv@, b as int) && (forall|j: int|
                    b < j < i ==> !spec_match_at(sv@, mv@, j)) && b < i,
                None => forall|j: int| 0 <= j < i ==> !spec_match_at(sv@, mv@, j),
            }),
        decreases bound + 1 - i,
    {
        if crate::strutil::match_at(&sv, &mv, i) {
            best = Some(i);
        }
        i = i + 1;
    }
    proof {
        assert forall|j: int| spec_match_at(sv@, mv@, j) implies 0 <= j <= bound by {}
    }
    match best {
        Some(b) => {
            proof {
                assert(exists|k: int| spec_match_at(sv@, mv@, k));
                let w = spec_last_match(sv@, mv@);
                assert(spec_match_at(sv@, mv@, b as int) && (forall|j: int|
                    spec_match_at(sv@, mv@, j) ==> j <= b));
                assert(w == b);
            }
            let from = b + mv.len();
            let mut out: Vec<char> = Vec::new();
            let mut k = from;
            while k < sv.len()
                invariant
                    from <= k <= sv@.len(),
                    out@ == sv@.subrange(from as int, k as int),
                decreases sv@.len() - k,
            {
                out.push(sv[k]);
                k = k + 1;
                proof {
                    assert(out@ =~= sv@.subrange(from as int, k as int));
                }
            }
            chars_to_string(&out)
        },
        None => {
            proof {
                assert forall|j: int| !spec_match_at(sv@, mv@, j) by {}
            }
            String::from_str(s)
        },
    }
}

/// Strips well-known installation prefixes from a source filename.
pub fn simplify_filename(s: &str) -> (r: String)
    ensures
        r@ == spec_simplify_filename(s@),
{
    let a = after_marker(s, "site-packages/");
    let b = after_marker(a.as_str(), "dist-packages/");
    b
}

/// Whether a frame is one of the conversion-machinery frames: its
/// simplified filename and its symbol name match the target.
pub open spec fn spec_frame_is(
    intern: Seq<(u32, String)>,
    f: FrameSummary,
    name: Seq<char>,
) -> bool {
    spec_simplify_filename(spec_resolved_filename(intern, f)) == "torch/_dynamo/convert_frame.py"@
        && f.name@ == name
}

/// Whether the stack ends with the three given frame names out of the
/// conversion machinery.
pub open spec fn spec_suffix_is(
    fs: Seq<FrameSummary>,
    intern: Seq<(u32, String)>,
    n1: Seq<char>,
    n2: Seq<char>,
    n3: Seq<char>,
) -> bool {
    fs.len() >= 3 && spec_frame_is(intern, fs[fs.len() - 3], n1) && spec_frame_is(
        intern,
        fs[fs.len() - 2],
        n2,
    ) && spec_frame_is(intern, fs[fs.len() - 1], n3)
}

/// The stack with a matching three-frame suffix removed.
pub open spec fn spec_strip_suffix(
    fs: Seq<FrameSummary>,
    intern: Seq<(u32, String)>,
    n1: Seq<char>,
    n2: Seq<char>,
    n3: Seq<char>,
) -> Seq<FrameSummary> {
    if spec_suffix_is(fs, intern, n1, n2, n3) {
        fs.subrange(0, fs.len() - 3)
    } else {
        fs
    }
}

/// The stack with at most one conversion-machinery suffix removed: the
/// catch/convert/convert-assert triple when it closes the stack,
/// otherwise the call-operator triple when that one does.
pub open spec fn spec_remove_convert_suffix(
    fs: Seq<FrameSummary>,
    intern: Seq<(u32, String)>,
) -> Seq<FrameSummary> {
    if spec_suffix_is(fs, intern, "catch_errors"@, "_convert_frame"@, "_convert_frame_assert"@) {
        fs.subrange(0, fs.len() - 3)
    } else {
        spec_strip_suffix(fs, intern, "__call__"@, "__call__"@, "__call__"@)
    }
}

/// Checks one frame against a target name.
fn frame_is(intern: &InternTable, f: &FrameSummary, name: &str) -> (r: bool)
    ensures
        r == spec_frame_is(intern@, *f, name@),
{
    let file = match &f.uninterned_filename {
        Some(s) => s.clone(),
        None => intern.resolve(f.filename),
    };
    let simplified = simplify_filename(file.as_str());
    let a = str_eq(simplified.as_str(), "torch/_dynamo/convert_frame.py");
    let b = str_eq(f.name.as_str(), name);
    a && b
}

/// Drops the conversion-machinery suffix frames a captured stack often
/// ends with: the catch/convert/convert-assert triple when it closes the
/// stack, otherwise the call-operator triple; at most one triple is ever
/// removed per call.
pub fn maybe_remove_convert_frame_suffixes(frames: &mut Vec<FrameSummary>, intern: &InternTable)
    ensures
        final(frames)@ == spec_remove_convert_suffix(old(frames)@, intern@),
{
    let stripped = strip_one_suffix(
        frames,
        intern,
        "catch_errors",
        "_convert_frame",
        "_convert_frame_assert",
    );
    if !stripped {
        strip_one_suffix(frames, intern, "__call__", "__call__", "__call__");
    }
}

/// Removes one matching three-frame suffix; reports whether it did.
fn strip_one_suffix(
    frames: &mut Vec<FrameSummary>,
    intern: &InternTable,
    n1: &str,
    n2: &str,
    n3: &str,
) -> (stripped: bool)
    ensures
        final(frames)@ == spec_strip_suffix(old(frames)@, intern@, n1@, n2@, n3@),
        stripped == spec_suffix_is(old(frames)@, intern@, n1@, n2@, n3@),
{
    let len = frames.len();
    if len >= 3 {
        let a = frame_is(intern, &frames[len - 3], n1);
        let b = frame_is(intern, &frames[len - 2], n2);
        let c = frame_is(intern, &frames[len - 1], n3);
        if a && b && c {
            frames.truncate(len - 3);
            proof {
                assert(frames@ =~= old(frames)@.subrange(0, old(frames)@.len() - 3));
            }
            return true;
        }
    }
    false
}

/// One node of the stack trie.
pub struct TrieNode {
    pub frame: FrameSummary,
    pub children: Vec<usize>,
    pub terminals: Vec<Option<CompileId>>,
}

/// The stack trie: an arena of nodes; every child index exceeds its
/// parent's, so the structure is acyclic by construction.  The ghost
/// record keeps the exact sequence of insertions.
pub struct StackTrieNode {
    pub nodes: Vec<TrieNode>,
    pub roots: Vec<usize>,
    pub inserted: Ghost<Seq<(Seq<FrameSummary>, Option<Option<CompileId>>)>>,
}

/// Arena well-formedness: all indices in bounds, children above parents.
pub open spec fn trie_wf(t: StackTrieNode) -> bool {
    &&& forall|r: int| 0 <= r < t.roots@.len() ==> (#[trigger] t.roots@[r]) < t.nodes@.len()
    &&& forall|i: int, c: int|
        0 <= i < t.nodes@.len() && 0 <= c < (#[trigger] t.nodes@[i]).children@.len() ==> i < (
        #[trigger] t.nodes@[i].children@[c]) < t.nodes@.len()
}

impl StackTrieNode {
    /// An empty trie.
    pub fn new() -> (r: StackTrieNode)
        ensures
            trie_wf(r),
            r.inserted@.len() == 0,
            r.nodes@.len() == 0,
    {
        StackTrieNode { nodes: Vec::new(), roots: Vec::new(), inserted: Ghost(Seq::empty()) }
    }

    /// Whether nothing was inserted.
    pub fn is_empty(&self) -> (r: bool)
        ensures
            r == (self.nodes@.len() == 0),
    {
        self.nodes.len() == 0
    }

    /// Inserts one stack with a terminal compile id.
    pub fn insert(&mut self, stack: StackSummary, terminal: Option<CompileId>)
        requires
            trie_wf(*old(self)),
        ensures
            trie_wf(*final(self)),
            final(self).inserted@ == old(self).inserted@.push(
                (stack@, Some::<Option<CompileId>>(terminal)),
            ),
    {
        proof {
            self.inserted@ = self.inserted@.push((stack@, Some(terminal)));
        }
        self.insert_path(&stack, Some(terminal));
    }

    /// Inserts one stack without a terminal.
    pub fn insert_no_terminal(&mut self, stack: StackSummary)
        requires
            trie_wf(*old(self)),
        ensures
            trie_wf(*final(self)),
            final(self).inserted@ == old(self).inserted@.push(
                (stack@, None::<Option<CompileId>>),
            ),
    {
        proof {
            self.inserted@ = self.inserted@.push((stack@, None));
        }
        self.insert_path(&stack, None);
    }

    /// Walks or creates the path of the stack's frames; marks the last
    /// node with the terminal, if one is given.
    fn insert_path(&mut self, stack: &StackSummary, terminal: Option<Option<CompileId>>)
        requires
            trie_wf(*old(self)),
        ensures
            trie_wf(*final(self)),
            final(self).inserted == old(self).inserted,
    {
        let mut cur: Option<usize> = None;
        let mut fi: usize = 0;
        while fi < stack.len()
            invariant
                trie_wf(*self),
                self.inserted == old(self).inserted,
                (match cur {
                    Some(c) => c < self.nodes@.len(),
                    None => true,
                }),
            decreases stack@.len() - fi,
        {
            let f = &stack[fi];
            let next = self.find_child(&cur, f);
            let node_idx: usize = match next {
                Some(c) => c,
                None => {
                    let idx = self.nodes.len();
                    if idx == usize::MAX {
                        return ;
                    }
                    self.nodes.push(
                        TrieNode {
                            frame: clone_frame(f),
                            children: Vec::new(),
                            terminals: Vec::new(),
                        },
                    );
                    match cur {
                        Some(p) => {
                            let ghost n0 = self.nodes@;
                            let mut parent = self.nodes.remove(p);
                            parent.children.push(idx);
                            self.nodes.insert(p, parent);
                            proof {
                                assert(self.nodes@ =~= n0.update(
                                    p as int,
                                    self.nodes@[p as int],
                                ));
                            }
                        },
                        None => {
                            self.roots.push(idx);
                        },
                    }
                    idx
                },
            };
            cur = Some(node_idx);
            fi = fi + 1;
        }
        if let Some(t) = terminal {
            if let Some(c) = cur {
                let ghost n0 = self.nodes@;
                let mut node = self.nodes.remove(c);
                node.terminals.push(t);
                self.nodes.insert(c, node);
                proof {
                    assert(self.nodes@ =~= n0.update(c as int, self.nodes@[c as int]));
                }
            }
        }
    }

    /// Finds an existing child of `cur` (or an existing root, when `cur`
    /// is absent) carrying an equal frame.
    fn find_child(&self, cur: &Option<usize>, f: &FrameSummary) -> (r: Option<usize>)
        requires
            trie_wf(*self),
            (match *cur {
                Some(c) => c < self.nodes@.len(),
                None => true,
            }),
        ensures
            (match r {
                Some(c) => c < self.nodes@.len() && (match *cur {
                    Some(p) => p < c,
                    None => true,
                }),
                None => true,
            }),
    {
        match cur {
            None => {
                let mut k: usize = 0;
                while k < self.roots.len()
                    invariant
                        trie_wf(*self),
                        k <= self.roots@.len(),
                        *cur is None,
                    decreases self.roots@.len() - k,
                {
                    let c = self.roots[k];
                    proof {
                        assert(self.roots@[k as int] < self.nodes@.len());
                    }
                    if frame_eq(&self.nodes[c].frame, f) {
                        return Some(c);
                    }
                    k = k + 1;
                }
                None
            },
            Some(p) => {
                let node = &self.nodes[*p];
                let mut k: usize = 0;
                while k < node.children.len()
                    invariant
                        trie_wf(*self),
                        *p < self.nodes@.len(),
                        *cur == Some(*p),
                        node == self.nodes@[*p as int],
                        k <= node.children@.len(),
                    decreases node.children@.len() - k,
                {
                    let c = node.children[k];
                    proof {
                        assert(*p < self.nodes@[*p as int].children@[k as int] < self.nodes@.len());
                    }
                    if frame_eq(&self.nodes[c].frame, f) {
                        return Some(c);
                    }
                    k = k + 1;
                }
                None
            },
        }
    }

    /// Renders the trie as nested HTML details blocks, captioned.
    pub fn fmt(&self, intern: &InternTable, caption: &str, with_open: bool) -> (r: String)
        requires
            trie_wf(*self),
    {
        proof {
            reveal_strlit("<details open><summary>");
            reveal_strlit("<details><summary>");
            reveal_strlit("</summary><div style='margin-left: 16px;'>");
            reveal_strlit("</div></details>");
        }
        let mut html = if with_open {
            String::from_str("<details open><summary>")
        } else {
            String::from_str("<details><summary>")
        };
        let ec = escape_text(caption);
        html.append(ec.as_str());
        html.append("</summary><div style='margin-left: 16px;'>");
        let mut k: usize = 0;
        while k < self.roots.len()
            invariant
                trie_wf(*self),
                k <= self.roots@.len(),
            decreases self.roots@.len() - k,
        {
            let part = self.fmt_node(intern, self.roots[k]);
            html.append(part.as_str());
            k = k + 1;
        }
        html.append("</div></details>");
        html
    }

    /// Renders one node and, below it, its children.
    fn fmt_node(&self, intern: &InternTable, i: usize) -> (r: String)
        requires
            trie_wf(*self),
            i < self.nodes@.len(),
        decreases self.nodes@.len() - i,
    {
        proof {
            reveal_strlit("<div>");
            reveal_strlit("</div>");
            reveal_strlit("<div style='margin-left: 16px;'>");
            reveal_strlit(" [");
            reveal_strlit("] ");
        }
        let node = &self.nodes[i];
        let mut html = String::from_str("<div>");
        let line = frame_text(intern, &node.frame);
        let el = escape_text(line.as_str());
        html.append(el.as_str());
        if node.terminals.len() > 0 {
            html.append(" [");
            let mut t: usize = 0;
            while t < node.terminals.len()
                invariant
                    trie_wf(*self),
                    i < self.nodes@.len(),
                    node == self.nodes@[i as int],
                    t <= node.terminals@.len(),
                decreases node.terminals@.len() - t,
            {
                let ts = match &node.terminals[t] {
                    Some(c) => c.as_string(),
                    None => String::from_str("-"),
                };
                let et = escape_text(ts.as_str());
                html.append(et.as_str());
                html.append(" ");
                t = t + 1;
            }
            html.append("] ");
        }
        html.append("<div style='margin-left: 16px;'>");
        let mut k: usize = 0;
        while k < node.children.len()
            invariant
                trie_wf(*self),
                i < self.nodes@.len(),
                node == self.nodes@[i as int],
                k <= node.children@.len(),
            decreases node.children@.len() - k,
        {
            let c = node.children[k];
            proof {
                assert(i < c < self.nodes@.len());
            }
            let part = self.fmt_node(intern, c);
            html.append(part.as_str());
            k = k + 1;
        }
        html.append("</div></div>");
        html
    }
}

/// Structural equality of frames.
pub fn frame_eq(a: &FrameSummary, b: &FrameSummary) -> (r: bool)
    ensures
        r == (a.filename == b.filename && a.line == b.line && a.name@ == b.name@
            && crate::envelope::vs_opt_str(a.uninterned_filename) == crate::envelope::vs_opt_str(
            b.uninterned_filename,
        )),
{
    let names = str_eq(a.name.as_str(), b.name.as_str());
    let uf = match (&a.uninterned_filename, &b.uninterned_filename) {
        (None, None) => true,
        (Some(x), Some(y)) => str_eq(x.as_str(), y.as_str()),
        _ => false,
    };
    a.filename == b.filename && a.line == b.line && names && uf
}

/// Deep copy of a frame.
pub fn clone_frame(f: &FrameSummary) -> (r: FrameSummary)
    ensures
        r.filename == f.filename,
        r.line == f.line,
        r.name@ == f.name@,
        crate::envelope::vs_opt_str(r.uninterned_filename) == crate::envelope::vs_opt_str(
            f.uninterned_filename,
        ),
{
    FrameSummary {
        filename: f.filename,
        line: f.line,
        name: f.name.clone(),
        uninterned_filename: match &f.uninterned_filename {
            Some(s) => Some(s.clone()),
            None => None,
        },
    }
}

/// The display text of one frame: "file:line in name".
pub fn frame_text(intern: &InternTable, f: &FrameSummary) -> (r: String)
    ensures
        r@ == spec_resolved_filename(intern@, *f) + ":"@ + crate::strutil::spec_dec(f.line as nat)
            + " in "@ + f.name@,
{
    proof {
        reveal_strlit(":");
        reveal_strlit(" in ");
    }
    let mut file = match &f.uninterned_filename {
        Some(s) => s.clone(),
        None => intern.resolve(f.filename),
    };
    file.append(":");
    let ln = u64_to_string(f.line);
    file.append(ln.as_str());
    file.append(" in ");
    file.append(f.name.as_str());
    file
}

/// Renders one stack as a captioned trie.
pub fn format_stack(
    stack: &StackSummary,
    caption: &str,
    with_open: bool,
    intern: &InternTable,
) -> (r: String) {
    let mut trie = StackTrieNode::new();
    let mut copy: Vec<FrameSummary> = Vec::new();
    let mut i: usize = 0;
    while i < stack.len()
        decreases stack@.len() - i,
    {
        copy.push(clone_frame(&stack[i]));
        i = i + 1;
    }
    trie.insert_no_terminal(copy);
    trie.fmt(intern, caption, with_open)
}

} // verus!
