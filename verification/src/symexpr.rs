//! The symbolic-expression trie: an arena of expression records keyed by
//! integer id, rendered depth-first with an explicit visited-id set so a
//! cyclic reference can never loop.

use vstd::prelude::*;
use vstd::string::StringExecFns;
use crate::envelope::SymExprInfoMetadata;
use crate::output::escape_text;
use crate::strutil::u64_to_string;

verus! {

/// The arena of expression records, keyed by node id; later insertions
/// of the same id win.
pub struct SymExprInfoIndex {
    pub entries: Vec<(u64, SymExprInfoMetadata)>,
}

/// The last entry for an id, if any.
pub open spec fn spec_sym_lookup(entries: Seq<(u64, SymExprInfoMetadata)>, id: u64) -> Option<
    int,
>
    decreases entries.len(),
{
    if entries.len() == 0 {
        None
    } else if entries.last().0 == id {
        Some(entries.len() - 1)
    } else {
        spec_sym_lookup(entries.drop_last(), id)
    }
}

impl SymExprInfoIndex {
    /// An empty index.
    pub fn new() -> (r: SymExprInfoIndex)
        ensures
            r.entries@.len() == 0,
    {
        SymExprInfoIndex { entries: Vec::new() }
    }

    /// Records one expression under its id; a later record for the same
    /// id shadows an earlier one.
    pub fn insert(&mut self, id: u64, info: SymExprInfoMetadata)
        ensures
            final(self).entries@ == old(self).entries@.push((id, info)),
    {
        self.entries.push((id, info));
    }

    /// The position of the record an id resolves to.
    fn find(&self, id: u64) -> (r: Option<usize>)
        ensures
            (match r {
                Some(k) => spec_sym_lookup(self.entries@, id) == Some(k as int) && k
                    < self.entries@.len(),
                None => spec_sym_lookup(self.entries@, id) is None,
            }),
    {
        let mut i: usize = self.entries.len();
        proof {
            assert(self.entries@.subrange(0, self.entries@.len() as int) =~= self.entries@);
        }
        while i > 0
            invariant
                i <= self.entries@.len(),
                spec_sym_lookup(self.entries@.subrange(0, i as int), id) == spec_sym_lookup(
                    self.entries@,
                    id,
                ),
            decreases i,
        {
            i = i - 1;
            proof {
                assert(self.entries@.subrange(0, i + 1).drop_last() =~= self.entries@.subrange(
                    0,
                    i as int,
                ));
                assert(self.entries@.subrange(0, i + 1).last() == self.entries@[i as int]);
            }
            if self.entries[i].0 == id {
                return Some(i);
            }
        }
        proof {
            assert(self.entries@.subrange(0, 0) =~= Seq::<(u64, SymExprInfoMetadata)>::empty());
        }
        None
    }
}

/// The visited set as the depth-first walk leaves it: an already-seen
/// id adds nothing, a fresh one adds itself and then, fuel and index
/// permitting, whatever its argument ids add in turn, left to right.
pub open spec fn spec_visit(
    entries: Seq<(u64, SymExprInfoMetadata)>,
    expr: u64,
    visited: Seq<u64>,
    fuel: nat,
) -> Seq<u64>
    decreases fuel, 0nat,
{
    if visited.contains(expr) {
        visited
    } else {
        let v1 = visited.push(expr);
        match spec_sym_lookup(entries, expr) {
            None => v1,
            Some(k) => if fuel == 0 {
                v1
            } else {
                match entries[k].1.argument_ids {
                    Some(ids) => spec_visit_children(entries, ids@, v1, (fuel - 1) as nat),
                    None => v1,
                }
            },
        }
    }
}

/// The visited set after walking a list of child ids in order.
pub open spec fn spec_visit_children(
    entries: Seq<(u64, SymExprInfoMetadata)>,
    ids: Seq<u64>,
    visited: Seq<u64>,
    fuel: nat,
) -> Seq<u64>
    decreases fuel, ids.len(),
{
    if ids.len() == 0 {
        visited
    } else {
        spec_visit_children(
            entries,
            ids.drop_first(),
            spec_visit(entries, ids[0], visited, fuel),
            fuel,
        )
    }
}

/// Whether an id was already visited.
fn is_visited(visited: &Vec<u64>, id: u64) -> (r: bool)
    ensures
        r == visited@.contains(id),
{
    let mut k: usize = 0;
    while k < visited.len()
        invariant
            k <= visited@.len(),
            forall|j: int| 0 <= j < k ==> visited@[j] != id,
        decreases visited@.len() - k,
    {
        if visited[k] == id {
            proof {
                assert(visited@[k as int] == id);
            }
            return true;
        }
        k = k + 1;
    }
    false
}

/// Renders the expression trie rooted at `expr`, depth-first.
///
/// Ids already in the visited set render nothing (this is what makes a
/// cyclic reference harmless), and so do ids absent from the index.  A
/// visited id is added to the set before its children are walked; the
/// set ends exactly as the depth-first walk leaves it (`spec_visit`).
/// The recursion carries fuel bounded by the index size, which a chain
/// of distinct visited ids can never exhaust.
pub fn render_sym_expr_trie(
    expr: u64,
    sym_expr_info_index: &SymExprInfoIndex,
    depth: usize,
    visited: &mut Vec<u64>,
) -> (r: Option<String>)
    ensures
        (r is None) == (old(visited)@.contains(expr) || spec_sym_lookup(
            sym_expr_info_index.entries@,
            expr,
        ) is None),
        final(visited)@ == spec_visit(
            sym_expr_info_index.entries@,
            expr,
            old(visited)@,
            sym_expr_info_index.entries@.len() as nat,
        ),
        old(visited)@.contains(expr) ==> final(visited)@ == old(visited)@,
        !old(visited)@.contains(expr) ==> final(visited)@.len() > old(visited)@.len()
            && final(visited)@.subrange(0, old(visited)@.len() as int) == old(visited)@
            && final(visited)@[old(visited)@.len() as int] == expr,
{
    let fuel = sym_expr_info_index.entries.len();
    render_with_fuel(expr, sym_expr_info_index, depth, visited, fuel)
}

/// The fuel-bounded renderer behind `render_sym_expr_trie`.
fn render_with_fuel(
    expr: u64,
    index: &SymExprInfoIndex,
    depth: usize,
    visited: &mut Vec<u64>,
    fuel: usize,
) -> (r: Option<String>)
    ensures
        (r is None) == (old(visited)@.contains(expr) || spec_sym_lookup(index.entries@, expr)
            is None),
        final(visited)@ == spec_visit(index.entries@, expr, old(visited)@, fuel as nat),
        old(visited)@.contains(expr) ==> final(visited)@ == old(visited)@,
        !old(visited)@.contains(expr) ==> final(visited)@.len() > old(visited)@.len()
            && final(visited)@.subrange(0, old(visited)@.len() as int) == old(visited)@
            && final(visited)@[old(visited)@.len() as int] == expr,
    decreases fuel,
{
    proof {
        reveal_strlit("<div style='margin-left: ");
        reveal_strlit("px;'><h3>");
        reveal_strlit("</h3><p>Method: ");
        reveal_strlit("</p><p>Arguments: ");
        reveal_strlit(", ");
        reveal_strlit("</p>");
        reveal_strlit("</div>");
    }
    if is_visited(visited, expr) {
        return None;
    }
    let ghost v0 = visited@;
    visited.push(expr);
    let ghost v1g = visited@;
    proof {
        assert(visited@.subrange(0, v0.len() as int) =~= v0);
        assert(v1g == v0.push(expr));
    }
    let at = match index.find(expr) {
        Some(k) => k,
        None => {
            proof {
                assert(visited@ == spec_visit(index.entries@, expr, v0, fuel as nat));
            }
            return None;
        },
    };
    let info = &index.entries[at].1;
    let mut html = String::from_str("<div style='margin-left: ");
    let margin_val: u64 = if depth > 1000 {
        20000
    } else {
        (depth as u64) * 20
    };
    let margin = u64_to_string(margin_val);
    html.append(margin.as_str());
    html.append("px;'><h3>");
    let result_text = match &info.result {
        Some(s) => escape_text(s.as_str()),
        None => String::new(),
    };
    html.append(result_text.as_str());
    html.append("</h3><p>Method: ");
    let method_text = match &info.method {
        Some(s) => escape_text(s.as_str()),
        None => String::new(),
    };
    html.append(method_text.as_str());
    html.append("</p><p>Arguments: ");
    match &info.arguments {
        Some(args) => {
            let mut a: usize = 0;
            while a < args.len()
                invariant
                    a <= args@.len(),
                decreases args@.len() - a,
            {
                if a > 0 {
                    html.append(", ");
                }
                let ea = escape_text(args[a].as_str());
                html.append(ea.as_str());
                a = a + 1;
            }
        },
        None => {},
    }
    html.append("</p>");
    if fuel > 0 {
        let next_depth = if depth < usize::MAX {
            depth + 1
        } else {
            depth
        };
        match &info.argument_ids {
            Some(arg_ids) => {
                let mut a: usize = 0;
                proof {
                    assert(arg_ids@.subrange(0, arg_ids@.len() as int) =~= arg_ids@);
                }
                while a < arg_ids.len()
                    invariant
                        a <= arg_ids@.len(),
                        fuel > 0,
                        visited@.subrange(0, v0.len() as int) == v0,
                        visited@.len() > v0.len(),
                        visited@[v0.len() as int] == expr,
                        spec_visit_children(index.entries@, arg_ids@, v1g, (fuel - 1) as nat)
                            == spec_visit_children(
                            index.entries@,
                            arg_ids@.subrange(a as int, arg_ids@.len() as int),
                            visited@,
                            (fuel - 1) as nat,
                        ),
                    decreases arg_ids@.len() - a,
                {
                    let ghost vpre = visited@;
                    let ghost rem = arg_ids@.subrange(a as int, arg_ids@.len() as int);
                    let child = render_with_fuel(arg_ids[a], index, next_depth, visited, fuel - 1);
                    proof {
                        if visited@.len() > vpre.len() {
                            assert(visited@.subrange(0, vpre.len() as int) == vpre);
                            assert(visited@.subrange(0, v0.len() as int) =~= vpre.subrange(
                                0,
                                v0.len() as int,
                            ));
                            assert(visited@[v0.len() as int] == vpre[v0.len() as int]);
                        }
                        assert(rem.drop_first() =~= arg_ids@.subrange(
                            a + 1,
                            arg_ids@.len() as int,
                        ));
                        assert(rem[0] == arg_ids@[a as int]);
                        assert(visited@ == spec_visit(
                            index.entries@,
                            arg_ids@[a as int],
                            vpre,
                            (fuel - 1) as nat,
                        ));
                        assert(spec_visit_children(index.entries@, rem, vpre, (fuel - 1) as nat)
                            == spec_visit_children(
                            index.entries@,
                            rem.drop_first(),
                            visited@,
                            (fuel - 1) as nat,
                        ));
                    }
                    match child {
                        Some(c) => {
                            html.append(c.as_str());
                        },
                        None => {},
                    }
                    a = a + 1;
                }
                proof {
                    assert(arg_ids@.subrange(
                        arg_ids@.len() as int,
                        arg_ids@.len() as int,
                    ) =~= Seq::<u64>::empty());
                    assert(visited@ == spec_visit_children(
                        index.entries@,
                        arg_ids@,
                        v1g,
                        (fuel - 1) as nat,
                    ));
                    assert(visited@ == spec_visit(index.entries@, expr, v0, fuel as nat));
                }
            },
            None => {
                proof {
                    assert(visited@ == spec_visit(index.entries@, expr, v0, fuel as nat));
                }
            },
        }
    } else {
        proof {
            assert(visited@ == spec_visit(index.entries@, expr, v0, fuel as nat));
        }
    }
    html.append("</div>");
    Some(html)
}

} // verus!
