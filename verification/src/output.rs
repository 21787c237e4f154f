//! File-output aggregation: sequence numbering, cache-status suffixes,
//! and the readable HTML companion for kernel stack-trace artifacts.

use vstd::prelude::*;
use vstd::string::StringExecFns;
use vstd::string::StrSliceExecFns;
use crate::directory::OutputFile;
use crate::directory::ParseOutput;
use crate::directory::is_stack_traces_file;
use crate::directory::spec_is_stack_traces_name;
use crate::directory::spec_component_start;
use crate::directory::spec_dot_split;
use crate::directory::component_start;
use crate::directory::dot_split;
use crate::json::Jv;
use crate::json::jmodel;
use crate::json::jv_keys;
use crate::json::jv_top_sorted;
use crate::json::json_parse;
use crate::json::text_model;
use crate::json::value_get;
use crate::json::value_as_str;
use crate::json::value_array_len;
use crate::json::value_array_get;
use crate::json::object_keys;
use crate::strutil::str_chars;
use crate::strutil::chars_to_string;
use crate::strutil::str_contains;
use crate::strutil::spec_contains_seq;

verus! {

/// Saturating increment: sequence numbers stop growing at the `u64`
/// ceiling instead of wrapping.
pub open spec fn spec_bump(x: u64) -> u64 {
    if x == u64::MAX {
        x
    } else {
        (x + 1) as u64
    }
}

/// Exec saturating increment.
pub fn bump(x: u64) -> (r: u64)
    ensures
        r == spec_bump(x),
{
    if x == u64::MAX {
        x
    } else {
        x + 1
    }
}

/// Text escaped for HTML: `&`, `<` and `>` become entities.
pub open spec fn spec_escape(s: Seq<char>) -> Seq<char>
    decreases s.len(),
{
    if s.len() == 0 {
        Seq::empty()
    } else {
        spec_escape(s.drop_last()) + (if s.last() == '&' {
            "&amp;"@
        } else if s.last() == '<' {
            "&lt;"@
        } else if s.last() == '>' {
            "&gt;"@
        } else {
            seq![s.last()]
        })
    }
}

/// Relies on html_escape::encode_text: escapes exactly `&`, `<` and `>`
/// as `&amp;`, `&lt;` and `&gt;`.
#[verifier::external_body]
pub fn escape_text(s: &str) -> (r: String)
    ensures
        r@ == spec_escape(s@),
{
    html_escape::encode_text(s).to_string()
}

/// The text with every `\n` escape pair decoded to a newline, scanning
/// left to right without overlap.
pub open spec fn spec_decode_newlines(s: Seq<char>) -> Seq<char>
    decreases s.len(),
{
    if s.len() == 0 {
        Seq::empty()
    } else if s.len() >= 2 && s[0] == '\\' && s[1] == 'n' {
        seq!['\n'] + spec_decode_newlines(s.subrange(2, s.len() as int))
    } else {
        seq![s[0]] + spec_decode_newlines(s.subrange(1, s.len() as int))
    }
}

/// Decodes `\n` escape pairs into real newlines.
pub fn decode_newlines(s: &str) -> (r: String)
    ensures
        r@ == spec_decode_newlines(s@),
{
    let v = str_chars(s);
    let n = v.len();
    let mut out: Vec<char> = Vec::new();
    let mut i: usize = 0;
    proof {
        assert(v@.subrange(0, n as int) =~= v@);
        assert(spec_decode_newlines(v@) =~= out@ + spec_decode_newlines(
            v@.subrange(0, n as int),
        ));
    }
    while i < n
        invariant
            i <= n,
            n == v@.len(),
            spec_decode_newlines(v@) == out@ + spec_decode_newlines(
                v@.subrange(i as int, n as int),
            ),
        decreases n - i,
    {
        let ghost rest = v@.subrange(i as int, n as int);
        if i + 1 < n && v[i] == '\\' && v[i + 1] == 'n' {
            out.push('\n');
            i = i + 2;
            proof {
                assert(rest.subrange(2, rest.len() as int) =~= v@.subrange(i as int, n as int));
                assert(out@ + spec_decode_newlines(v@.subrange(i as int, n as int))
                    =~= out@.drop_last() + spec_decode_newlines(rest));
            }
        } else {
            out.push(v[i]);
            i = i + 1;
            proof {
                assert(rest[0] == v@[i - 1]);
                assert(rest.subrange(1, rest.len() as int) =~= v@.subrange(i as int, n as int));
                assert(out@ + spec_decode_newlines(v@.subrange(i as int, n as int))
                    =~= out@.drop_last() + spec_decode_newlines(rest));
            }
        }
    }
    proof {
        assert(v@.subrange(n as int, n as int) =~= Seq::<char>::empty());
        assert(spec_decode_newlines(v@) =~= out@);
    }
    chars_to_string(&out)
}

/// The text with trailing newlines removed.
pub open spec fn spec_trim_newlines(s: Seq<char>) -> Seq<char>
    decreases s.len(),
{
    if s.len() > 0 && s.last() == '\n' {
        spec_trim_newlines(s.drop_last())
    } else {
        s
    }
}

/// Removes trailing newlines.
pub fn trim_newlines(s: &str) -> (r: String)
    ensures
        r@ == spec_trim_newlines(s@),
{
    let v = str_chars(s);
    let mut i = v.len();
    proof {
        assert(v@.subrange(0, i as int) =~= v@);
    }
    while i > 0 && v[i - 1] == '\n'
        invariant
            i <= v@.len(),
            spec_trim_newlines(v@) == spec_trim_newlines(v@.subrange(0, i as int)),
        decreases i,
    {
        proof {
            assert(v@.subrange(0, i as int).last() == v@[i - 1]);
            assert(v@.subrange(0, i as int).drop_last() =~= v@.subrange(0, i - 1));
        }
        i = i - 1;
    }
    proof {
        if i > 0 {
            assert(v@.subrange(0, i as int).last() == v@[i - 1]);
        }
        assert(spec_trim_newlines(v@.subrange(0, i as int)) == v@.subrange(0, i as int));
    }
    let mut out: Vec<char> = Vec::new();
    let mut j: usize = 0;
    while j < i
        invariant
            j <= i <= v@.len(),
            out@ == v@.subrange(0, j as int),
        decreases i - j,
    {
        out.push(v[j]);
        j = j + 1;
        proof {
            assert(out@ =~= v@.subrange(0, j as int));
        }
    }
    chars_to_string(&out)
}

/// The trace strings of one kernel: the string elements of its array,
/// non-strings skipped; a non-array value yields no traces.
pub open spec fn spec_trace_items(x: Jv) -> Seq<Seq<char>> {
    match x {
        Jv::Arr(xs) => spec_str_items(xs),
        _ => Seq::empty(),
    }
}

/// The string elements of an array, in order.
pub open spec fn spec_str_items(xs: Seq<Jv>) -> Seq<Seq<char>>
    decreases xs.len(),
{
    if xs.len() == 0 {
        Seq::empty()
    } else {
        spec_str_items(xs.drop_last()) + (match xs.last() {
            Jv::Str(s) => seq![s],
            _ => Seq::empty(),
        })
    }
}

/// The HTML block of one trace string.
pub open spec fn spec_trace_html(t: Seq<char>) -> Seq<char> {
    "<pre>"@ + spec_escape(spec_trim_newlines(spec_decode_newlines(t))) + "</pre>\n"@
}

/// The HTML blocks of a kernel's traces.
pub open spec fn spec_traces_html(ts: Seq<Seq<char>>) -> Seq<char>
    decreases ts.len(),
{
    if ts.len() == 0 {
        Seq::empty()
    } else {
        spec_traces_html(ts.drop_last()) + spec_trace_html(ts.last())
    }
}

/// The HTML section of one kernel.
pub open spec fn spec_kernel_html(kernel: Seq<char>, traces: Seq<Seq<char>>) -> Seq<char> {
    "<h3>"@ + spec_escape(kernel) + "</h3>\n"@ + spec_traces_html(traces)
}

/// The HTML body built from the kernels of the parsed stack-traces
/// document: one section per object entry, in object order.
pub open spec fn spec_kernels_html(m: Jv, upto: int) -> Seq<char>
    decreases upto,
{
    if upto <= 0 || !(m is Obj) {
        Seq::empty()
    } else {
        spec_kernels_html(m, upto - 1) + spec_kernel_html(
            m->Obj_0[upto - 1].0,
            spec_trace_items(m->Obj_0[upto - 1].1),
        )
    }
}

/// The whole readable HTML document for a parsed stack-traces artifact.
pub open spec fn spec_stack_traces_html(m: Jv) -> Seq<char> {
    "<html><body>\n"@ + (if m is Obj {
        spec_kernels_html(m, m->Obj_0.len() as int)
    } else {
        Seq::empty()
    }) + "</body></html>\n"@
}

/// The readable companion's path: the stem gains "_readable.html"; a
/// path without a file component stays unchanged.
pub open spec fn spec_readable_path(p: Seq<char>) -> Seq<char> {
    let cs = spec_component_start(p);
    let c = p.subrange(cs, p.len() as int);
    if c.len() == 0 {
        p
    } else {
        let d = spec_dot_split(c);
        if d < 0 {
            p + "_readable.html"@
        } else {
            p.subrange(0, cs) + c.subrange(0, d) + "_readable.html"@
        }
    }
}

/// Extracts the trace strings of one kernel value.
fn trace_items(x: &serde_json::Value) -> (r: Vec<String>)
    ensures
        r@.map_values(|s: String| s@) == spec_trace_items(jmodel(*x)),
{
    let n = match value_array_len(x) {
        Some(n) => n,
        None => {
            proof {
                assert(Seq::<String>::empty().map_values(|s: String| s@) =~= spec_trace_items(
                    jmodel(*x),
                ));
            }
            return Vec::new();
        },
    };
    let ghost xs = jmodel(*x)->Arr_0;
    let mut out: Vec<String> = Vec::new();
    let mut i: usize = 0;
    proof {
        assert(xs.subrange(0, 0) =~= Seq::<Jv>::empty());
        assert(out@.map_values(|s: String| s@) =~= spec_str_items(xs.subrange(0, 0)));
    }
    while i < n
        invariant
            i <= n,
            jmodel(*x) matches Jv::Arr(xs2) && xs2 == xs && xs.len() == n,
            out@.map_values(|s: String| s@) == spec_str_items(xs.subrange(0, i as int)),
        decreases n - i,
    {
        let e = match value_array_get(x, i) {
            Some(e) => e,
            None => {
                proof {
                    assert(false);
                }
                return Vec::new();
            },
        };
        match value_as_str(e) {
            Some(s) => {
                out.push(String::from_str(s));
            },
            None => {},
        }
        i = i + 1;
        proof {
            assert(xs.subrange(0, i as int).drop_last() =~= xs.subrange(0, i - 1));
            assert(xs.subrange(0, i as int).last() == xs[i - 1]);
            assert(out@.map_values(|s: String| s@) =~= spec_str_items(xs.subrange(0, i as int)));
        }
    }
    proof {
        assert(xs.subrange(0, n as int) =~= xs);
    }
    out
}

/// Builds the readable HTML for a kernel stack-traces artifact and
/// appends it to the output list; returns its path.  Content that is not
/// valid JSON yields no companion and no new output.
pub fn add_stack_traces_html(
    json_path: &String,
    json_content: &str,
    output: &mut ParseOutput,
    output_count: &mut u64,
) -> (r: Option<String>)
    ensures
        (match text_model(json_content@) {
            None => {
                &&& r is None
                &&& final(output)@ == old(output)@
                &&& *final(output_count) == *old(output_count)
            },
            Some(m) => {
                &&& (r matches Some(u) && u@ == spec_readable_path(json_path@))
                &&& final(output)@.len() == old(output)@.len() + 1
                &&& final(output)@.subrange(0, old(output)@.len() as int) == old(output)@
                &&& final(output)@.last().0@ == spec_readable_path(json_path@)
                &&& final(output)@.last().1@ == spec_stack_traces_html(m)
                &&& *final(output_count) == spec_bump(*old(output_count))
            },
        }),
{
    let parsed = match json_parse(json_content) {
        Some(v) => v,
        None => {
            return None;
        },
    };
    proof {
        reveal_strlit("<html><body>\n");
        reveal_strlit("</body></html>\n");
        reveal_strlit("<h3>");
        reveal_strlit("</h3>\n");
        reveal_strlit("<pre>");
        reveal_strlit("</pre>\n");
    }
    let ghost m = jmodel(parsed);
    let mut html = String::from_str("<html><body>\n");
    if crate::json::value_is_object(&parsed) {
        let keys = object_keys(&parsed);
        let ghost es = m->Obj_0;
        let mut ki: usize = 0;
        proof {
            assert(keys@.map_values(|s: String| s@) == jv_keys(m));
            assert(jv_keys(m).len() == es.len());
        }
        while ki < keys.len()
            invariant
                ki <= keys@.len(),
                m == jmodel(parsed),
                m is Obj,
                es == m->Obj_0,
                jv_top_sorted(m),
                keys@.map_values(|s: String| s@) == jv_keys(m),
                keys@.len() == es.len(),
                html@ == "<html><body>\n"@ + spec_kernels_html(m, ki as int),
            decreases keys@.len() - ki,
        {
            let k = &keys[ki];
            proof {
                assert(keys@.map_values(|s: String| s@)[ki as int] == k@);
                assert(jv_keys(m)[ki as int] == es[ki as int].0);
                crate::json::lemma_sorted_obj_get(es, ki as int);
            }
            html.append("<h3>");
            let ek = escape_text(k.as_str());
            html.append(ek.as_str());
            html.append("</h3>\n");
            let traces = match value_get(&parsed, k.as_str()) {
                Some(tv) => trace_items(tv),
                None => {
                    proof {
                        assert(false);
                    }
                    Vec::new()
                },
            };
            let ghost ts = spec_trace_items(es[ki as int].1);
            let mut ti: usize = 0;
            proof {
                assert(traces@.map_values(|s: String| s@) == ts);
                assert(ts.subrange(0, 0) =~= Seq::<Seq<char>>::empty());
            }
            while ti < traces.len()
                invariant
                    ti <= traces@.len(),
                    traces@.map_values(|s: String| s@) == ts,
                    html@ == "<html><body>\n"@ + spec_kernels_html(m, ki as int) + "<h3>"@
                        + spec_escape(keys@.map_values(|s: String| s@)[ki as int]) + "</h3>\n"@
                        + spec_traces_html(ts.subrange(0, ti as int)),
                    ki < keys@.len(),
                    keys@.len() == es.len(),
                    m == jmodel(parsed),
                    m is Obj,
                    es == m->Obj_0,
                    keys@.map_values(|s: String| s@) == jv_keys(m),
                decreases traces@.len() - ti,
            {
                let t = &traces[ti];
                html.append("<pre>");
                let decoded = decode_newlines(t.as_str());
                let trimmed = trim_newlines(decoded.as_str());
                let et = escape_text(trimmed.as_str());
                html.append(et.as_str());
                html.append("</pre>\n");
                ti = ti + 1;
                proof {
                    assert(traces@.map_values(|s: String| s@)[ti - 1] == ts[ti - 1]);
                    assert(ts.subrange(0, ti as int).drop_last() =~= ts.subrange(0, ti - 1));
                    assert(ts.subrange(0, ti as int).last() == ts[ti - 1]);
                }
            }
            ki = ki + 1;
            proof {
                assert(ts.subrange(0, ts.len() as int) =~= ts);
                assert(jv_keys(m)[ki - 1] == es[ki - 1].0);
                assert(html@ =~= "<html><body>\n"@ + spec_kernels_html(m, ki as int));
            }
        }
        proof {
            assert(spec_kernels_html(m, keys@.len() as int) == spec_kernels_html(
                m,
                es.len() as int,
            ));
        }
    }
    html.append("</body></html>\n");
    proof {
        assert(html@ =~= "<html><body>\n"@ + (if m is Obj {
            spec_kernels_html(m, m->Obj_0.len() as int)
        } else {
            Seq::<char>::empty()
        }) + "</body></html>\n"@);
    }
    let html_path = readable_path(json_path);
    output.push((html_path.clone(), html));
    *output_count = bump(*output_count);
    proof {
        assert(output@.subrange(0, old(output)@.len() as int) =~= old(output)@);
    }
    Some(html_path)
}

/// The companion path of a stack-traces artifact.
fn readable_path(p: &String) -> (r: String)
    ensures
        r@ == spec_readable_path(p@),
{
    proof {
        reveal_strlit("_readable.html");
    }
    let v = str_chars(p.as_str());
    let cs = component_start(&v);
    if cs == v.len() {
        proof {
            assert(v@.subrange(cs as int, v@.len() as int).len() == 0);
        }
        return p.clone();
    }
    let stem_end: usize = match dot_split(&v, cs) {
        Some(d) => d,
        None => v.len(),
    };
    let mut head: Vec<char> = Vec::new();
    let mut i: usize = 0;
    while i < stem_end
        invariant
            i <= stem_end <= v@.len(),
            head@ == v@.subrange(0, i as int),
        decreases stem_end - i,
    {
        head.push(v[i]);
        i = i + 1;
        proof {
            assert(head@ =~= v@.subrange(0, i as int));
        }
    }
    let mut r = chars_to_string(&head);
    r.append("_readable.html");
    proof {
        let c = v@.subrange(cs as int, v@.len() as int);
        let d = spec_dot_split(c);
        if d >= 0 {
            assert(c.subrange(0, d) =~= v@.subrange(cs as int, stem_end as int));
            assert(v@.subrange(0, cs as int) + v@.subrange(cs as int, stem_end as int)
                =~= v@.subrange(0, stem_end as int));
        } else {
            assert(v@.subrange(0, stem_end as int) =~= v@);
        }
        assert(r@ =~= spec_readable_path(p@));
    }
    r
}

/// The cache-status suffix a filename carries: a miss, hit or bypass
/// marker, or nothing.
pub open spec fn spec_suffix_of(p: Seq<char>) -> Seq<char> {
    if spec_contains_seq(p, "cache_miss"@) {
        "\u{274c}"@
    } else if spec_contains_seq(p, "cache_hit"@) {
        "\u{2705}"@
    } else if spec_contains_seq(p, "cache_bypass"@) {
        "\u{2753}"@
    } else {
        Seq::empty()
    }
}

/// What one recorded file does to the output list, the bucket and the
/// sequence counter.  A kernel stack-traces artifact also gets a
/// readable HTML companion (when its JSON parses), pushed right after it
/// and linked from the bucket entry.
pub open spec fn spec_add_file_effect(
    old_output: Seq<(String, String)>,
    new_output: Seq<(String, String)>,
    old_bucket: Seq<OutputFile>,
    new_bucket: Seq<OutputFile>,
    old_count: u64,
    new_count: u64,
    p: Seq<char>,
    content: Seq<char>,
) -> bool {
    &&& new_bucket.len() == old_bucket.len() + 1
    &&& new_bucket.subrange(0, old_bucket.len() as int) == old_bucket
    &&& new_output.len() >= old_output.len() + 1
    &&& new_output.subrange(0, old_output.len() as int) == old_output
    &&& new_output[old_output.len() as int].0@ == p
    &&& new_output[old_output.len() as int].1@ == content
    &&& ({
        let f = new_bucket.last();
        &&& f.url@ == p
        &&& f.name@ == p
        &&& f.suffix@ == spec_suffix_of(p)
        &&& (if !spec_is_stack_traces_name(p) {
            &&& f.readable_url is None
            &&& f.number == old_count
            &&& new_count == spec_bump(old_count)
            &&& new_output.len() == old_output.len() + 1
        } else {
            match crate::json::text_model(content) {
                None => {
                    &&& f.readable_url is None
                    &&& f.number == old_count
                    &&& new_count == spec_bump(old_count)
                    &&& new_output.len() == old_output.len() + 1
                },
                Some(m) => {
                    &&& f.readable_url matches Some(u) && u@ == spec_readable_path(p)
                    &&& f.number == spec_bump(old_count)
                    &&& new_count == spec_bump(spec_bump(old_count))
                    &&& new_output.len() == old_output.len() + 2
                    &&& new_output[old_output.len() as int + 1].0@ == spec_readable_path(p)
                    &&& new_output[old_output.len() as int + 1].1@ == spec_stack_traces_html(m)
                },
            }
        })
    })
}

/// Records one produced file: appends it (and, for a kernel stack-traces
/// artifact whose JSON parses, its readable HTML companion) to the
/// output list, and one entry to the current compile-id bucket, numbered
/// with the process-wide sequence counter.
pub fn add_file_output(
    filename: String,
    content: String,
    output: &mut ParseOutput,
    compile_directory: &mut Vec<OutputFile>,
    output_count: &mut u64,
)
    ensures
        spec_add_file_effect(
            old(output)@,
            final(output)@,
            old(compile_directory)@,
            final(compile_directory)@,
            *old(output_count),
            *final(output_count),
            filename@,
            content@,
        ),
{
    let is_stack_traces = is_stack_traces_file(&filename);
    let maybe_content: Option<String> = if is_stack_traces {
        Some(content.clone())
    } else {
        None
    };
    output.push((filename.clone(), content));
    let ghost out1 = output@;
    let suffix = suffix_of(filename.as_str());
    let readable_url: Option<String> = match maybe_content {
        Some(c) => add_stack_traces_html(&filename, c.as_str(), output, output_count),
        None => None,
    };
    proof {
        assert(output@.subrange(0, out1.len() as int) == out1 || output@ == out1);
        assert(output@[old(output)@.len() as int] == out1[old(output)@.len() as int]);
    }
    let number = *output_count;
    let name = filename.clone();
    compile_directory.push(OutputFile { url: filename, name, number, suffix, readable_url });
    *output_count = bump(*output_count);
    proof {
        assert(compile_directory@.subrange(0, old(compile_directory)@.len() as int) =~= old(
            compile_directory,
        )@);
        assert(output@.subrange(0, old(output)@.len() as int) =~= old(output)@);
    }
}

/// The cache-status suffix of a filename.
fn suffix_of(p: &str) -> (r: String)
    ensures
        r@ == spec_suffix_of(p@),
{
    if str_contains(p, "cache_miss") {
        String::from_str("\u{274c}")
    } else if str_contains(p, "cache_hit") {
        String::from_str("\u{2705}")
    } else if str_contains(p, "cache_bypass") {
        String::from_str("\u{2753}")
    } else {
        String::new()
    }
}

} // verus!
