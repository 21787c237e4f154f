//! The single-pass log stream interpreter.
//!
//! One pass reads the whole log: every line is held to the fixed grammar
//! (a failure is counted and the next line is unaffected), the JSON
//! payload is decoded into an envelope, intern side-channel records feed
//! the string table, continuation blocks are gathered and checked
//! against their expected hash (a mismatch is counted but the payload is
//! still delivered), the first observed rank becomes sticky, and every
//! matching registered parser runs on each accepted record.  Failures
//! accumulate in counters; only at pass end, in strict mode, do they
//! turn into a hard error.

use vstd::prelude::*;
use vstd::string::StringExecFns;
use vstd::string::StrSliceExecFns;
use crate::ParseConfig;
use crate::envelope::Envelope;
use crate::envelope::CompileId;
use crate::envelope::CompilationMetricsMetadata;
use crate::envelope::SymbolicShapeSpecializationMetadata;
use crate::envelope::GuardAddedFastMetadata;
use crate::envelope::StackSummary;
use crate::envelope::extract_envelope;
use crate::envelope::env_ok;
use crate::envelope::field_absent;
use crate::envelope::sp_opt_str;
use crate::ingest::GlogHeader;
use crate::ingest::glog_ok;
use crate::ingest::parse_glog_line;
use crate::ingest::gather_payload;
use crate::ingest::check_payload_integrity;
use crate::ingest::spec_cont_end;
use crate::ingest::spec_cont_payload;
use crate::ingest::spec_integrity_ok;
use crate::ingest::spec_digits_end;
use crate::ingest::spec_noncolon_end;
use crate::intern::InternTable;
use crate::json::Jv;
use crate::json::jmodel;
use crate::json::json_parse;
use crate::json::jv_get;
use crate::json::text_model;
use crate::json::value_get;
use crate::json::object_insert;
use crate::json::value_to_string;
use crate::json::value_to_string_pretty;
use crate::json::string_value;
use crate::json::u64_value;
use crate::json::null_value;
use crate::json::array_value;
use crate::json::empty_object_value;
use crate::json::jv_top_sorted;
use crate::json::lemma_obj_insert_sorted;
use crate::json::value_clone;
use crate::directory::CompileDirectory;
use crate::directory::OutputFile;
use crate::directory::ParseOutput;
use crate::directory::add_unique_suffix;
use crate::directory::clone_opt_cid;
use crate::output::add_file_output;
use crate::output::bump;
use crate::output::spec_bump;
use crate::envelope::sp_opt_empty;
use crate::json::rendered_pretty;
use crate::parsers::LogParser;
use crate::parsers::OutputView;
use crate::parsers::spec_parser_fires;
use crate::parsers::spec_run_ok;
use crate::parsers::spec_parser_name;
use crate::parsers::spec_metrics_page;
use crate::parsers::metrics_page;
use crate::parsers::build_file_path;
use crate::parsers::ParserOutput;
use crate::parsers::ReformatKind;
use crate::parsers::format_json_pretty;
use crate::stack::StackTrieNode;
use crate::stack::trie_wf;
use crate::stack::maybe_remove_convert_frame_suffixes;
use crate::stack::clone_frame;
use crate::strutil::u64_to_string;
use crate::strutil::u64_to_string_pad;
use crate::strutil::str_eq;
use crate::strutil::push_char;
use crate::symexpr::SymExprInfoIndex;

verus! {

/// The pass-scoped failure counters; all saturate at the `u64` ceiling.
#[derive(Debug)]
pub struct Stats {
    pub ok: u64,
    pub fail_glog: u64,
    pub fail_json: u64,
    pub fail_payload_md5: u64,
    pub other_rank: u64,
    pub fail_dynamo_guards_json: u64,
    pub fail_parser: u64,
    pub fail_key_conflict: u64,
    pub fail_json_serialization: u64,
    pub unknown: u64,
}

impl Stats {
    pub fn new() -> (r: Stats)
        ensures
            r == (Stats {
                ok: 0u64,
                fail_glog: 0u64,
                fail_json: 0u64,
                fail_payload_md5: 0u64,
                other_rank: 0u64,
                fail_dynamo_guards_json: 0u64,
                fail_parser: 0u64,
                fail_key_conflict: 0u64,
                fail_json_serialization: 0u64,
                unknown: 0u64,
            }),
    {
        Stats {
            ok: 0,
            fail_glog: 0,
            fail_json: 0,
            fail_payload_md5: 0,
            other_rank: 0,
            fail_dynamo_guards_json: 0,
            fail_parser: 0,
            fail_key_conflict: 0,
            fail_json_serialization: 0,
            unknown: 0,
        }
    }
}

/// The failure sum strict mode examines at pass end: grammar, JSON,
/// integrity, off-rank, guard-JSON and parser failures.
pub open spec fn spec_strict_sum(s: Stats) -> int {
    s.fail_glog + s.fail_json + s.fail_payload_md5 + s.other_rank + s.fail_dynamo_guards_json
        + s.fail_parser
}

/// Exec form of the strict-mode failure test.
pub fn strict_failures_present(s: &Stats) -> (r: bool)
    ensures
        r == (spec_strict_sum(*s) > 0),
{
    s.fail_glog > 0 || s.fail_json > 0 || s.fail_payload_md5 > 0 || s.other_rank > 0
        || s.fail_dynamo_guards_json > 0 || s.fail_parser > 0
}

/// A hard pass failure; one arises only at pass end, never while a
/// record is being ingested.
#[derive(Debug)]
pub enum ParseError {
    /// Strict mode found accumulated failures; the counters are carried.
    Strict(Stats),
    /// Strict-compile-id mode found records without a compile id.
    UnknownCompileId,
}

/// One failure-or-restart entry for the report.
pub enum FailureKind {
    Restart(String),
    Failure { fail_type: String, reason: String, user_frame_filename: String, user_frame_lineno: u64 },
}

pub struct FailureRecord {
    pub compile_id: Option<CompileId>,
    pub lineno: u64,
    pub kind: FailureKind,
}

/// One export-mode failure entry, as data; the report renders the prose.
pub struct ExportFailure {
    pub failure_type: String,
    pub expr: Option<String>,
    pub result: Option<String>,
    pub op: Option<String>,
    pub detail: Option<String>,
    pub compile_dir: String,
}

/// Everything one interpreter pass produces.
pub struct ParseResult {
    pub output: ParseOutput,
    pub directory: CompileDirectory,
    pub stats: Stats,
    pub intern: InternTable,
    pub string_table: Vec<Option<String>>,
    pub raw_jsonl: String,
    pub failures: Vec<FailureRecord>,
    pub export_failures: Vec<ExportFailure>,
    pub metrics_index: Vec<(Option<CompileId>, Vec<CompilationMetricsMetadata>)>,
    pub stack_index: Vec<(Option<CompileId>, StackSummary)>,
    pub specialization_index: Vec<(Option<CompileId>, Vec<SymbolicShapeSpecializationMetadata>)>,
    pub guard_added_fast_index: Vec<(Option<CompileId>, Vec<GuardAddedFastMetadata>)>,
    pub sym_expr_info_index: SymExprInfoIndex,
    pub stack_trie: StackTrieNode,
    pub unknown_stack_trie: StackTrieNode,
    pub unknown_fields: Vec<String>,
    pub chromium_events_json: String,
    pub directory_json: String,
    pub has_unknown_compile_id: bool,
    pub directory_names: Vec<String>,
}

/// Relies on chrono (Utc::now, Datelike::year): the current year.  It
/// depends on the clock, so nothing is promised of it.
#[verifier::external_body]
fn current_year() -> i32 {
    chrono::Datelike::year(&chrono::Utc::now())
}

/// The mutable state one pass threads through its records.
pub struct PassState {
    pub stats: Stats,
    pub expected_rank: Option<Option<u32>>,
    pub intern: InternTable,
    pub directory: CompileDirectory,
    pub output: ParseOutput,
    pub output_count: u64,
    pub shortraw: String,
    pub chromium_events: Vec<serde_json::Value>,
    pub failures: Vec<FailureRecord>,
    pub export_failures: Vec<ExportFailure>,
    pub metrics_index: Vec<(Option<CompileId>, Vec<CompilationMetricsMetadata>)>,
    pub stack_index: Vec<(Option<CompileId>, StackSummary)>,
    pub specialization_index: Vec<(Option<CompileId>, Vec<SymbolicShapeSpecializationMetadata>)>,
    pub guard_added_fast_index: Vec<(Option<CompileId>, Vec<GuardAddedFastMetadata>)>,
    pub sym_expr_info_index: SymExprInfoIndex,
    pub stack_trie: StackTrieNode,
    pub unknown_stack_trie: StackTrieNode,
    pub unknown_fields: Vec<String>,
    pub year: u64,
}

/// The structural well-formedness a pass maintains.
pub open spec fn state_wf(st: PassState) -> bool {
    &&& st.directory.wf()
    &&& trie_wf(st.stack_trie)
    &&& trie_wf(st.unknown_stack_trie)
}

/// The payload text a grammar-conforming line carries.
pub open spec fn spec_payload_of(l: Seq<char>) -> Seq<char> {
    let te = spec_digits_end(l, 22);
    let pe = spec_noncolon_end(l, te);
    let le = spec_digits_end(l, pe + 1);
    l.subrange(le + 2, l.len() as int)
}

/// Whether the record on line `l` is an intern side-channel entry.
pub open spec fn spec_is_intern_record(m: Jv) -> bool {
    !field_absent(m, "str"@)
}

/// The expected payload hash the record carries, when it does.
pub open spec fn spec_expected_hash(m: Jv) -> Option<Seq<char>> {
    match sp_opt_str(m, "has_payload"@) {
        Some(o) => o,
        None => None,
    }
}

/// The ISO-8601-style timestamp the side log derives from one header.
pub open spec fn spec_timestamp(year: u64, h: GlogHeader) -> Seq<char> {
    crate::strutil::spec_dec_pad(year as nat, 4) + "-"@ + crate::strutil::spec_dec_pad(
        h.month as nat,
        2,
    ) + "-"@ + crate::strutil::spec_dec_pad(h.day as nat, 2) + "T"@ + crate::strutil::spec_dec_pad(
        h.hour as nat,
        2,
    ) + ":"@ + crate::strutil::spec_dec_pad(h.minute as nat, 2) + ":"@
        + crate::strutil::spec_dec_pad(h.second as nat, 2) + "."@ + crate::strutil::spec_dec_pad(
        h.micros as nat,
        6,
    ) + "Z"@
}

/// Whether the record's object already carries one of the keys the side
/// log would add.
pub open spec fn spec_aug_conflict(m: Jv, pf: Option<Seq<char>>) -> bool {
    ||| jv_get(m, "timestamp"@) is Some
    ||| jv_get(m, "thread"@) is Some
    ||| jv_get(m, "pathname"@) is Some
    ||| jv_get(m, "lineno"@) is Some
    ||| (pf is Some && jv_get(m, "payload_filename"@) is Some)
}

/// The record's object with the derived fields added.
pub open spec fn spec_augmented(m: Jv, year: u64, h: GlogHeader, pf: Option<Seq<char>>) -> Jv {
    let e1 = crate::json::jv_obj_insert(m->Obj_0, "timestamp"@, Jv::Str(spec_timestamp(year, h)));
    let e2 = crate::json::jv_obj_insert(e1, "thread"@, Jv::UInt(h.thread));
    let e3 = crate::json::jv_obj_insert(e2, "pathname"@, Jv::Str(h.pathname@));
    let e4 = crate::json::jv_obj_insert(e3, "lineno"@, Jv::UInt(h.source_line));
    match pf {
        Some(f) => Jv::Obj(crate::json::jv_obj_insert(e4, "payload_filename"@, Jv::Str(f))),
        None => Jv::Obj(e4),
    }
}

/// The view of an optional payload-file name.
pub open spec fn spec_pf_view(pf: Option<String>) -> Option<Seq<char>> {
    match pf {
        Some(f) => Some(f@),
        None => None,
    }
}

/// The compile id a decoded record carries, at the spec level.
pub open spec fn spec_env_cid(m: Jv) -> Option<CompileId> {
    match jv_get(m, "compile_id"@) {
        None => None,
        Some(Jv::Null) => None,
        Some(x) => Some(
            CompileId {
                compiled_autograd_id: (match crate::envelope::sp_opt_u32(
                    x,
                    "compiled_autograd_id"@,
                ) {
                    Some(o) => o,
                    None => None,
                }),
                frame_id: (match crate::envelope::sp_opt_u32(x, "frame_id"@) {
                    Some(o) => o,
                    None => None,
                }),
                frame_compile_id: (match crate::envelope::sp_opt_u32(x, "frame_compile_id"@) {
                    Some(o) => o,
                    None => None,
                }),
                attempt: (match crate::envelope::sp_opt_u32(x, "attempt"@) {
                    Some(o) => o,
                    None => None,
                }),
            },
        ),
    }
}

/// The bucket key a decoded record's artifacts land under: the record's
/// compile id, normalized.
pub open spec fn spec_bucket_of(m: Jv) -> Option<CompileId> {
    match spec_env_cid(m) {
        Some(c) => Some(c.spec_normalize()),
        None => None,
    }
}

/// Appends a saturating amount to a counter.
fn sat_add(x: u64, n: u64) -> (r: u64)
    ensures
        n == 0 ==> r == x,
        r >= x,
{
    if x > u64::MAX - n {
        u64::MAX
    } else {
        x + n
    }
}

/// A payload after the pretty-printing reformat step: the re-rendered
/// document where the payload parses, the payload itself where not.
pub open spec fn spec_pretty_or_raw(p: Seq<char>) -> Seq<char> {
    match text_model(p) {
        Some(j) => rendered_pretty(j),
        None => p,
    }
}

/// Whether some recorded output file carries exactly this content.
pub open spec fn spec_content_present(output: Seq<(String, String)>, content: Seq<char>) -> bool {
    exists|k: int| 0 <= k < output.len() && (#[trigger] output[k]).1@ == content
}

/// Whether a record's payload was written out: verbatim, or after the
/// pretty-printing reformat step.
pub open spec fn spec_payload_recorded(output: Seq<(String, String)>, payload: Seq<char>) -> bool {
    ||| spec_content_present(output, payload)
    ||| spec_content_present(output, spec_pretty_or_raw(payload))
}

/// Content present in an output list stays present in any extension.
proof fn lemma_content_present_extend(
    o1: Seq<(String, String)>,
    o2: Seq<(String, String)>,
    c: Seq<char>,
)
    requires
        spec_content_present(o1, c),
        o1.len() <= o2.len(),
        o2.subrange(0, o1.len() as int) == o1,
    ensures
        spec_content_present(o2, c),
{
    let k = choose|k: int| 0 <= k < o1.len() && (#[trigger] o1[k]).1@ == c;
    assert(o2.subrange(0, o1.len() as int)[k] == o2[k]);
}

/// A recorded payload stays recorded in any extension of the output list.
proof fn lemma_payload_recorded_extend(
    o1: Seq<(String, String)>,
    o2: Seq<(String, String)>,
    p: Seq<char>,
)
    requires
        spec_payload_recorded(o1, p),
        o1.len() <= o2.len(),
        o2.subrange(0, o1.len() as int) == o1,
    ensures
        spec_payload_recorded(o2, p),
{
    if spec_content_present(o1, p) {
        lemma_content_present_extend(o1, o2, p);
    } else {
        lemma_content_present_extend(o1, o2, spec_pretty_or_raw(p));
    }
}

/// Adds the fields the pass derives to one record's JSON object and
/// appends the result to the side log; a line whose object already
/// carries one of the added keys is dropped whole, preserving strict
/// JSON-Lines validity, and counted.
fn write_to_shortraw(
    st: &mut PassState,
    h: &GlogHeader,
    payload_filename: Option<String>,
)
    requires
        state_wf(*old(st)),
    ensures
        state_wf(*final(st)),
        *final(st) == (PassState {
            shortraw: final(st).shortraw,
            stats: final(st).stats,
            ..*old(st)
        }),
        final(st).stats == (Stats {
            fail_json: final(st).stats.fail_json,
            fail_key_conflict: final(st).stats.fail_key_conflict,
            ..old(st).stats
        }),
        ({
            let pf = spec_pf_view(payload_filename);
            match text_model(h.payload@) {
                None => final(st).shortraw@ == old(st).shortraw@ && final(st).stats.fail_json
                    == spec_bump(old(st).stats.fail_json) && final(st).stats.fail_key_conflict
                    == old(st).stats.fail_key_conflict,
                Some(m) => if !(m is Obj) {
                    final(st).shortraw@ == old(st).shortraw@ && final(st).stats.fail_json
                        == spec_bump(old(st).stats.fail_json) && final(st).stats.fail_key_conflict
                        == old(st).stats.fail_key_conflict
                } else if spec_aug_conflict(m, pf) {
                    final(st).shortraw@ == old(st).shortraw@ && final(st).stats.fail_key_conflict
                        == spec_bump(old(st).stats.fail_key_conflict) && final(st).stats.fail_json
                        == old(st).stats.fail_json
                } else {
                    final(st).shortraw@ == old(st).shortraw@ + crate::json::rendered(
                        spec_augmented(m, old(st).year, *h, pf),
                    ) + seq!['\n'] && final(st).stats.fail_json == old(st).stats.fail_json
                        && final(st).stats.fail_key_conflict == old(st).stats.fail_key_conflict
                },
            }
        }),
{
    let parsed = match json_parse(h.payload.as_str()) {
        Some(v) => v,
        None => {
            st.stats.fail_json = bump(st.stats.fail_json);
            return ;
        },
    };
    if !crate::json::value_is_object(&parsed) {
        st.stats.fail_json = bump(st.stats.fail_json);
        return ;
    }
    let mut v = parsed;
    proof {
        reveal_strlit("-");
        reveal_strlit("T");
        reveal_strlit(":");
        reveal_strlit(".");
        reveal_strlit("Z");
    }
    let mut ts = u64_to_string_pad(st.year, 4);
    ts.append("-");
    let mo = u64_to_string_pad(h.month, 2);
    ts.append(mo.as_str());
    ts.append("-");
    let dy = u64_to_string_pad(h.day, 2);
    ts.append(dy.as_str());
    ts.append("T");
    let hh = u64_to_string_pad(h.hour, 2);
    ts.append(hh.as_str());
    ts.append(":");
    let mi = u64_to_string_pad(h.minute, 2);
    ts.append(mi.as_str());
    ts.append(":");
    let se = u64_to_string_pad(h.second, 2);
    ts.append(se.as_str());
    ts.append(".");
    let us = u64_to_string_pad(h.micros, 6);
    ts.append(us.as_str());
    ts.append("Z");
    if value_get(&v, "timestamp").is_some() || value_get(&v, "thread").is_some() || value_get(
        &v,
        "pathname",
    ).is_some() || value_get(&v, "lineno").is_some() {
        st.stats.fail_key_conflict = bump(st.stats.fail_key_conflict);
        return ;
    }
    if payload_filename.is_some() && value_get(&v, "payload_filename").is_some() {
        st.stats.fail_key_conflict = bump(st.stats.fail_key_conflict);
        return ;
    }
    proof {
        lemma_obj_insert_sorted(jmodel(v)->Obj_0, "timestamp"@, Jv::Str(ts@));
    }
    object_insert(&mut v, "timestamp", string_value(ts.as_str()));
    proof {
        lemma_obj_insert_sorted(jmodel(v)->Obj_0, "thread"@, Jv::UInt(h.thread));
    }
    object_insert(&mut v, "thread", u64_value(h.thread));
    proof {
        lemma_obj_insert_sorted(jmodel(v)->Obj_0, "pathname"@, Jv::Str(h.pathname@));
    }
    object_insert(&mut v, "pathname", string_value(h.pathname.as_str()));
    proof {
        lemma_obj_insert_sorted(jmodel(v)->Obj_0, "lineno"@, Jv::UInt(h.source_line));
    }
    object_insert(&mut v, "lineno", u64_value(h.source_line));
    match payload_filename {
        Some(pf) => {
            proof {
                lemma_obj_insert_sorted(jmodel(v)->Obj_0, "payload_filename"@, Jv::Str(pf@));
            }
            object_insert(&mut v, "payload_filename", string_value(pf.as_str()));
        },
        None => {},
    }
    let line = value_to_string(&v);
    st.shortraw.append(line.as_str());
    push_char(&mut st.shortraw, '\n');
}

/// Runs one registered parser on one accepted record, dispatching its
/// outputs; a parser failure is isolated and counted, never fatal.  The
/// last payload-derived file name wins.
/// Dispatches one registered parser on one accepted record.
///
/// A parser that does not fire leaves the state untouched.  A firing
/// parser that succeeds contributes exactly one output: a file lands in
/// the output list and the current bucket with the next sequence
/// number(s) (payload-reuse outputs also set the record's payload file
/// name, and carry the payload itself, checked or not); a link lands in
/// the bucket alone.  A parser failure is isolated and counted — under
/// the guards parser's own counter, under the general one otherwise.
#[verifier::rlimit(60)]
pub fn run_parser(
    st: &mut PassState,
    bidx: usize,
    parser: &LogParser,
    lineno: usize,
    e: &Envelope,
    payload: &str,
    payload_filename: &mut Option<String>,
)
    requires
        state_wf(*old(st)),
        bidx < old(st).directory.entries@.len(),
    ensures
        state_wf(*final(st)),
        final(st).directory.entries@.len() == old(st).directory.entries@.len(),
        bidx < final(st).directory.entries@.len(),
        forall|j: int|
            0 <= j < final(st).directory.entries@.len() && j != bidx
                ==> (#[trigger] final(st).directory.entries@[j]) == old(st).directory.entries@[j],
        final(st).directory.entries@[bidx as int].0 == old(st).directory.entries@[bidx as int].0,
        final(st).stats == (Stats {
            fail_dynamo_guards_json: final(st).stats.fail_dynamo_guards_json,
            fail_parser: final(st).stats.fail_parser,
            ..old(st).stats
        }),
        final(st).expected_rank == old(st).expected_rank,
        final(st).intern == old(st).intern,
        final(st).shortraw == old(st).shortraw,
        final(st).chromium_events == old(st).chromium_events,
        final(st).failures == old(st).failures,
        !spec_parser_fires(*parser, *e) ==> (*final(st) == *old(st) && *final(payload_filename)
            == *old(payload_filename)),
        // A firing parser either succeeds, leaving the failure counters
        // alone, or fails, bumping exactly its counter — the guards
        // parser's own, the general one otherwise — and nothing else:
        // output, buckets, sequence counter and payload file name keep
        // their values, so one buggy handler cannot derail the record.
        spec_parser_fires(*parser, *e) ==> ({
            ||| final(st).stats == old(st).stats
            ||| ({
                &&& *final(st) == (PassState { stats: final(st).stats, ..*old(st) })
                &&& *final(payload_filename) == *old(payload_filename)
                &&& (if crate::parsers::spec_parser_name(*parser) == "dynamo_guards"@ {
                    final(st).stats == (Stats {
                        fail_dynamo_guards_json: spec_bump(old(st).stats.fail_dynamo_guards_json),
                        ..old(st).stats
                    })
                } else {
                    final(st).stats == (Stats {
                        fail_parser: spec_bump(old(st).stats.fail_parser),
                        ..old(st).stats
                    })
                })
            })
        }),
        // A firing parser that cannot succeed on the record changes
        // nothing but its failure counter.
        (spec_parser_fires(*parser, *e) && !spec_run_ok(*parser, *e, payload@)) ==> ({
            &&& *final(st) == (PassState { stats: final(st).stats, ..*old(st) })
            &&& *final(payload_filename) == *old(payload_filename)
        }),
        (spec_parser_fires(*parser, *e) && spec_run_ok(*parser, *e, payload@)) ==> ({
            let ov = crate::parsers::spec_run_output(*parser, *e, lineno as nat, payload@);
            let ob = old(st).directory.entries@[bidx as int].1@;
            let nb = final(st).directory.entries@[bidx as int].1@;
            match ov {
                OutputView::PayloadFileV(p0) => ({
                    let up = crate::directory::spec_add_unique_suffix(
                        p0,
                        old(st).output_count as nat,
                    );
                    &&& (*final(payload_filename) matches Some(f) && f@ == up)
                    &&& crate::output::spec_add_file_effect(
                        old(st).output@,
                        final(st).output@,
                        ob,
                        nb,
                        old(st).output_count,
                        final(st).output_count,
                        up,
                        payload@,
                    )
                }),
                OutputView::FileV(p0, c) => ({
                    let up = crate::directory::spec_add_unique_suffix(
                        p0,
                        old(st).output_count as nat,
                    );
                    &&& *final(payload_filename) == *old(payload_filename)
                    &&& crate::output::spec_add_file_effect(
                        old(st).output@,
                        final(st).output@,
                        ob,
                        nb,
                        old(st).output_count,
                        final(st).output_count,
                        up,
                        c,
                    )
                }),
                OutputView::GlobalFileV(p0, c) => ({
                    &&& *final(payload_filename) == *old(payload_filename)
                    &&& crate::output::spec_add_file_effect(
                        old(st).output@,
                        final(st).output@,
                        ob,
                        nb,
                        old(st).output_count,
                        final(st).output_count,
                        p0,
                        c,
                    )
                }),
                OutputView::PayloadReformatFileV(p0, k) => ({
                    let up = crate::directory::spec_add_unique_suffix(
                        p0,
                        old(st).output_count as nat,
                    );
                    let content = (match text_model(payload@) {
                        Some(j) => crate::json::rendered_pretty(j),
                        None => payload@,
                    });
                    &&& (*final(payload_filename) matches Some(f) && f@ == up)
                    &&& crate::output::spec_add_file_effect(
                        old(st).output@,
                        final(st).output@,
                        ob,
                        nb,
                        old(st).output_count,
                        final(st).output_count,
                        up,
                        content,
                    )
                }),
                OutputView::LinkV(n, u) => ({
                    &&& *final(payload_filename) == *old(payload_filename)
                    &&& final(st).output == old(st).output
                    &&& final(st).output_count == spec_bump(old(st).output_count)
                    &&& nb.len() == ob.len() + 1
                    &&& nb.subrange(0, ob.len() as int) == ob
                    &&& nb.last().url@ == u
                    &&& nb.last().name@ == n
                    &&& nb.last().number == old(st).output_count
                    &&& nb.last().suffix@ == Seq::<char>::empty()
                    &&& nb.last().readable_url is None
                }),
            }
        }),
{
    if !parser.fires(e) {
        return ;
    }
    let results = match parser.run_on(lineno, e, payload) {
        Ok(rs) => rs,
        Err(_err) => {
            if str_eq(parser.parser_name(), "dynamo_guards") {
                st.stats.fail_dynamo_guards_json = bump(st.stats.fail_dynamo_guards_json);
            } else {
                st.stats.fail_parser = bump(st.stats.fail_parser);
            }
            return ;
        },
    };
    let mut results = results;
    let out = results.remove(0);
    let ghost o_out = st.output@;
    let ghost o_cnt = st.output_count;
    let ghost ob = st.directory.entries@[bidx as int].1@;
    match out {
        ParserOutput::File(raw, content) => {
            let f = add_unique_suffix(raw, st.output_count);
            let ghost up = f@;
            let ghost cc = content@;
            let mut bucket_adds: Vec<OutputFile> = Vec::new();
            add_file_output(f, content, &mut st.output, &mut bucket_adds, &mut st.output_count);
            let fe = bucket_adds.remove(0);
            st.directory.push_at(bidx, fe);
            proof {
                assert(st.directory.entries@[bidx as int].1@ =~= ob.push(fe));
                assert(ob.push(fe).subrange(0, ob.len() as int) =~= ob);
                assert(crate::output::spec_add_file_effect(
                    o_out,
                    st.output@,
                    ob,
                    ob.push(fe),
                    o_cnt,
                    st.output_count,
                    up,
                    cc,
                ));
            }
        },
        ParserOutput::GlobalFile(f, content) => {
            let ghost up = f@;
            let ghost cc = content@;
            let mut bucket_adds: Vec<OutputFile> = Vec::new();
            add_file_output(f, content, &mut st.output, &mut bucket_adds, &mut st.output_count);
            let fe = bucket_adds.remove(0);
            st.directory.push_at(bidx, fe);
            proof {
                assert(st.directory.entries@[bidx as int].1@ =~= ob.push(fe));
                assert(ob.push(fe).subrange(0, ob.len() as int) =~= ob);
                assert(crate::output::spec_add_file_effect(
                    o_out,
                    st.output@,
                    ob,
                    ob.push(fe),
                    o_cnt,
                    st.output_count,
                    up,
                    cc,
                ));
            }
        },
        ParserOutput::PayloadFile(raw) => {
            let f = add_unique_suffix(raw, st.output_count);
            let ghost up = f@;
            *payload_filename = Some(f.clone());
            let mut bucket_adds: Vec<OutputFile> = Vec::new();
            add_file_output(
                f,
                String::from_str(payload),
                &mut st.output,
                &mut bucket_adds,
                &mut st.output_count,
            );
            let fe = bucket_adds.remove(0);
            st.directory.push_at(bidx, fe);
            proof {
                assert(st.directory.entries@[bidx as int].1@ =~= ob.push(fe));
                assert(ob.push(fe).subrange(0, ob.len() as int) =~= ob);
                assert(crate::output::spec_add_file_effect(
                    o_out,
                    st.output@,
                    ob,
                    ob.push(fe),
                    o_cnt,
                    st.output_count,
                    up,
                    payload@,
                ));
            }
        },
        ParserOutput::PayloadReformatFile(raw, kind) => {
            let f = add_unique_suffix(raw, st.output_count);
            let ghost up = f@;
            let formatted = match kind {
                ReformatKind::JsonPretty => format_json_pretty(payload),
            };
            match formatted {
                Ok(content) => {
                    let ghost cc = content@;
                    *payload_filename = Some(f.clone());
                    let mut bucket_adds: Vec<OutputFile> = Vec::new();
                    add_file_output(
                        f,
                        content,
                        &mut st.output,
                        &mut bucket_adds,
                        &mut st.output_count,
                    );
                    let fe = bucket_adds.remove(0);
                    st.directory.push_at(bidx, fe);
                    proof {
                        assert(st.directory.entries@[bidx as int].1@ =~= ob.push(fe));
                        assert(ob.push(fe).subrange(0, ob.len() as int) =~= ob);
                        assert(crate::output::spec_add_file_effect(
                            o_out,
                            st.output@,
                            ob,
                            ob.push(fe),
                            o_cnt,
                            st.output_count,
                            up,
                            cc,
                        ));
                    }
                },
                Err(_e) => {
                    st.stats.fail_parser = bump(st.stats.fail_parser);
                },
            }
        },
        ParserOutput::Link(name, url) => {
            let fe = OutputFile {
                url,
                name,
                number: st.output_count,
                suffix: String::new(),
                readable_url: None,
            };
            st.directory.push_at(bidx, fe);
            st.output_count = bump(st.output_count);
            proof {
                assert(st.directory.entries@[bidx as int].1@ =~= ob.push(fe));
                assert(ob.push(fe).subrange(0, ob.len() as int) =~= ob);
            }
        },
    }
}

/// Appends a value to the list an association key maps to, creating the
/// entry when the key is new.
fn push_metrics(
    idx: &mut Vec<(Option<CompileId>, Vec<CompilationMetricsMetadata>)>,
    key: Option<CompileId>,
    m: CompilationMetricsMetadata,
)
{
    let mut k: usize = 0;
    while k < idx.len()
        decreases idx@.len() - k,
    {
        let hit = crate::directory::opt_cid_eq(&idx[k].0, &key);
        if hit {
            let mut entry = idx.remove(k);
            entry.1.push(m);
            idx.insert(k, entry);
            return ;
        }
        k = k + 1;
    }
    let mut l: Vec<CompilationMetricsMetadata> = Vec::new();
    l.push(m);
    idx.push((key, l));
}

fn push_specialization(
    idx: &mut Vec<(Option<CompileId>, Vec<SymbolicShapeSpecializationMetadata>)>,
    key: Option<CompileId>,
    m: SymbolicShapeSpecializationMetadata,
)
{
    let mut k: usize = 0;
    while k < idx.len()
        decreases idx@.len() - k,
    {
        let hit = crate::directory::opt_cid_eq(&idx[k].0, &key);
        if hit {
            let mut entry = idx.remove(k);
            entry.1.push(m);
            idx.insert(k, entry);
            return ;
        }
        k = k + 1;
    }
    let mut l: Vec<SymbolicShapeSpecializationMetadata> = Vec::new();
    l.push(m);
    idx.push((key, l));
}

fn push_fastguard(
    idx: &mut Vec<(Option<CompileId>, Vec<GuardAddedFastMetadata>)>,
    key: Option<CompileId>,
    m: GuardAddedFastMetadata,
)
{
    let mut k: usize = 0;
    while k < idx.len()
        decreases idx@.len() - k,
    {
        let hit = crate::directory::opt_cid_eq(&idx[k].0, &key);
        if hit {
            let mut entry = idx.remove(k);
            entry.1.push(m);
            idx.insert(k, entry);
            return ;
        }
        k = k + 1;
    }
    let mut l: Vec<GuardAddedFastMetadata> = Vec::new();
    l.push(m);
    idx.push((key, l));
}

/// Records an unknown field name once.
fn note_unknown_field(fields: &mut Vec<String>, k: &String) {
    let mut i: usize = 0;
    while i < fields.len()
        decreases fields@.len() - i,
    {
        if str_eq(fields[i].as_str(), k.as_str()) {
            return ;
        }
        i = i + 1;
    }
    fields.push(k.clone());
}

/// Copies a stack.
fn clone_stack(s: &StackSummary) -> (r: StackSummary) {
    let mut out: Vec<crate::envelope::FrameSummary> = Vec::new();
    let mut i: usize = 0;
    while i < s.len()
        decreases s@.len() - i,
    {
        out.push(clone_frame(&s[i]));
        i = i + 1;
    }
    out
}

/// Processes the line at index `i` (and any continuation block that
/// belongs to it); returns the index of the next unconsumed line.
///
/// A line that fails the grammar counts one grammar failure and touches
/// nothing else, so it never affects the parsing of the next line.  A
/// decoded record that announces a payload hash has the block checked:
/// the integrity counter grows exactly when the check fails, and the
/// payload is delivered to the handlers either way.
#[verifier::rlimit(100)]
pub fn process_line(
    st: &mut PassState,
    lines: &Vec<String>,
    i: usize,
    config: &ParseConfig,
    defaults: &Vec<LogParser>,
) -> (next: usize)
    requires
        state_wf(*old(st)),
        i < lines@.len(),
    ensures
        i < next <= lines@.len(),
        state_wf(*final(st)),
        // A line that fails the grammar (an empty line among them) is
        // dropped and counted, and nothing else changes: the parsing of
        // the next line is unaffected.
        !glog_ok(lines@[i as int]@) ==> (next == i + 1 && *final(st) == (PassState {
            stats: Stats { fail_glog: spec_bump(old(st).stats.fail_glog), ..old(st).stats },
            ..*old(st)
        })),
        // An intern side-channel record is consumed immediately: it only
        // feeds the string table (and the unknown-field diagnostics); no
        // artifact, no side-log line, no rank or compile-id processing.
        ({
            let l = lines@[i as int]@;
            &&& glog_ok(l)
            &&& (text_model(spec_payload_of(l)) matches Some(m) && env_ok(m)
                && spec_is_intern_record(m))
        }) ==> ({
            let l = lines@[i as int]@;
            let m = text_model(spec_payload_of(l))->Some_0;
            let entry = crate::envelope::sp_str_entry(crate::json::jv_get(m, "str"@)->Some_0);
            &&& next == i + 1
            &&& final(st).intern@.len() == old(st).intern@.len() + 1
            &&& final(st).intern@.subrange(0, old(st).intern@.len() as int) == old(st).intern@
            &&& final(st).intern@.last().0 == entry.1
            &&& final(st).intern@.last().1@ == entry.0
            &&& final(st).output == old(st).output
            &&& final(st).directory == old(st).directory
            &&& final(st).output_count == old(st).output_count
            &&& final(st).shortraw == old(st).shortraw
            &&& final(st).chromium_events == old(st).chromium_events
            &&& final(st).failures == old(st).failures
            &&& final(st).expected_rank == old(st).expected_rank
            &&& final(st).stats == (Stats { unknown: final(st).stats.unknown, ..old(st).stats })
        }),
        // Payload integrity: the expected hash is checked against the
        // joined continuation block; the counter grows exactly on a
        // mismatch (and the payload is still delivered downstream).
        ({
            let l = lines@[i as int]@;
            &&& glog_ok(l)
            &&& (text_model(spec_payload_of(l)) matches Some(m) && env_ok(m)
                && !spec_is_intern_record(m) && spec_expected_hash(m) is Some)
        }) ==> ({
            let l = lines@[i as int]@;
            let lv = lines@.map_values(|x: String| x@);
            let m = text_model(spec_payload_of(l))->Some_0;
            let d = spec_expected_hash(m)->Some_0;
            let block = spec_cont_payload(lv, i + 1, spec_cont_end(lv, i + 1));
            &&& next == spec_cont_end(lv, i + 1)
            &&& final(st).stats.fail_payload_md5 == (if spec_integrity_ok(d, block) {
                old(st).stats.fail_payload_md5
            } else {
                spec_bump(old(st).stats.fail_payload_md5)
            })
        }),
        // Rank stickiness: the first non-null rank fixes the expected
        // rank; a decoded record with a different rank is skipped and
        // counted, one with the expected (or no fixed) rank is accepted.
        ({
            let l = lines@[i as int]@;
            &&& glog_ok(l)
            &&& (text_model(spec_payload_of(l)) matches Some(m) && env_ok(m)
                && !spec_is_intern_record(m))
        }) ==> ({
            let l = lines@[i as int]@;
            let m = text_model(spec_payload_of(l))->Some_0;
            let rank = (match crate::envelope::sp_opt_u32(m, "rank"@) {
                Some(o) => o,
                None => None,
            });
            &&& (old(st).expected_rank is None ==> final(st).expected_rank == (if rank is Some {
                Some(rank)
            } else {
                None
            }) && final(st).stats.ok == spec_bump(old(st).stats.ok)
                && final(st).stats.other_rank == old(st).stats.other_rank)
            &&& ((old(st).expected_rank is None || old(st).expected_rank == Some(rank))
                ==> exists|bk: int|
                0 <= bk < final(st).directory.entries@.len()
                    && (#[trigger] final(st).directory.entries@[bk]).0 == spec_bucket_of(m))
            &&& (old(st).expected_rank matches Some(r) ==> final(st).expected_rank == old(
                st,
            ).expected_rank && (if r == rank {
                final(st).stats.ok == spec_bump(old(st).stats.ok) && final(st).stats.other_rank
                    == old(st).stats.other_rank
            } else {
                &&& final(st).stats.ok == old(st).stats.ok
                &&& final(st).stats.other_rank == spec_bump(old(st).stats.other_rank)
                &&& final(st).output == old(st).output
                &&& final(st).directory == old(st).directory
                &&& final(st).output_count == old(st).output_count
                &&& final(st).chromium_events == old(st).chromium_events
                &&& final(st).intern == old(st).intern
            }))
        }),
        // An accepted record's checked payload is delivered whatever the
        // integrity check said: some output file carries it, verbatim or
        // pretty-printed (the fallback payload file when no handler
        // claimed it).
        ({
            let l = lines@[i as int]@;
            &&& glog_ok(l)
            &&& (text_model(spec_payload_of(l)) matches Some(m) && env_ok(m)
                && !spec_is_intern_record(m))
        }) ==> ({
            let l = lines@[i as int]@;
            let lv = lines@.map_values(|x: String| x@);
            let m = text_model(spec_payload_of(l))->Some_0;
            let rank = (match crate::envelope::sp_opt_u32(m, "rank"@) {
                Some(o) => o,
                None => None,
            });
            let block = spec_cont_payload(lv, i + 1, spec_cont_end(lv, i + 1));
            ((old(st).expected_rank is None || old(st).expected_rank == Some(rank))
                && spec_expected_hash(m) is Some && block.len() > 0 && sp_opt_empty(
                m,
                "chromium_event"@,
            ) == Some(false) && !config.export) ==> spec_payload_recorded(
                final(st).output@,
                block,
            )
        }),
{
    let n_lines = lines.len();
    let line = &lines[i];
    let h = match parse_glog_line(line.as_str()) {
        Some(h) => h,
        None => {
            st.stats.fail_glog = bump(st.stats.fail_glog);
            return i + 1;
        },
    };
    let lineno = i + 1;
    let parsed = json_parse(h.payload.as_str());
    let e = match &parsed {
        Some(v) => match extract_envelope(v) {
            Some(e) => e,
            None => {
                st.stats.fail_json = bump(st.stats.fail_json);
                write_to_shortraw(st, &h, None);
                return i + 1;
            },
        },
        None => {
            st.stats.fail_json = bump(st.stats.fail_json);
            write_to_shortraw(st, &h, None);
            return i + 1;
        },
    };
    st.stats.unknown = sat_add(st.stats.unknown, e.unknown_keys.len() as u64);
    let mut uk: usize = 0;
    let ghost st_pre = *st;
    while uk < e.unknown_keys.len()
        invariant
            state_wf(*st),
            uk <= e.unknown_keys@.len(),
            *st == (PassState { unknown_fields: st.unknown_fields, ..st_pre }),
        decreases e.unknown_keys@.len() - uk,
    {
        note_unknown_field(&mut st.unknown_fields, &e.unknown_keys[uk]);
        uk = uk + 1;
    }
    if let Some((s, id)) = e.str_entry {
        st.intern.insert(id, s);
        return i + 1;
    }
    let (payload, next) = match &e.has_payload {
        Some(_) => gather_payload(lines, i + 1),
        None => (String::new(), i + 1),
    };
    if let Some(d) = &e.has_payload {
        let okhash = check_payload_integrity(d.as_str(), payload.as_str());
        if !okhash {
            st.stats.fail_payload_md5 = bump(st.stats.fail_payload_md5);
        }
    }
    match &st.expected_rank {
        Some(r) => {
            if !crate::directory::opt_u32_eq(r, &e.rank) {
                st.stats.other_rank = bump(st.stats.other_rank);
                write_to_shortraw(st, &h, None);
                return next;
            }
        },
        None => {
            if e.rank.is_some() {
                st.expected_rank = Some(e.rank);
            }
        },
    }
    proof {
        match parsed {
            Some(v) => {
                let m = jmodel(v);
                match &e.compile_id {
                    Some(c) => {
                        assert(*c == (CompileId {
                            compiled_autograd_id: c.compiled_autograd_id,
                            frame_id: c.frame_id,
                            frame_compile_id: c.frame_compile_id,
                            attempt: c.attempt,
                        }));
                        assert(spec_env_cid(m) == Some(*c));
                    },
                    None => {
                        assert(spec_env_cid(m) is None);
                    },
                }
                assert((match e.compile_id {
                    Some(c2) => Some(c2.spec_normalize()),
                    None => None::<CompileId>,
                }) == spec_bucket_of(m));
            },
            None => {},
        }
    }
    st.stats.ok = bump(st.stats.ok);
    handle_record(st, lineno, e, payload, &h, config, defaults);
    next
}

/// Collects the restart and failure entries and the metrics index of a
/// compilation-metrics record; a failure type without a reason is a
/// malformed record, counted, never a pass abort.
fn handle_metrics_record(st: &mut PassState, lineno: usize, e: &Envelope)
    requires
        state_wf(*old(st)),
    ensures
        state_wf(*final(st)),
        *final(st) == (PassState {
            failures: final(st).failures,
            metrics_index: final(st).metrics_index,
            stats: final(st).stats,
            ..*old(st)
        }),
        final(st).stats == (Stats { fail_json: final(st).stats.fail_json, ..old(st).stats }),
{
    if let Some(m) = &e.compilation_metrics {
        if let Some(rr) = &m.restart_reasons {
            let mut ri: usize = 0;
            while ri < rr.len()
                invariant
                    state_wf(*st),
                    ri <= rr@.len(),
                    *st == (PassState {
                        failures: st.failures,
                        metrics_index: st.metrics_index,
                        stats: st.stats,
                        ..*old(st)
                    }),
                    st.stats == (Stats { fail_json: st.stats.fail_json, ..old(st).stats }),
                decreases rr@.len() - ri,
            {
                st.failures.push(
                    FailureRecord {
                        compile_id: clone_opt_cid(&e.compile_id),
                        lineno: lineno as u64,
                        kind: FailureKind::Restart(rr[ri].clone()),
                    },
                );
                ri = ri + 1;
            }
        }
        if let Some(f) = &m.fail_type {
            match &m.fail_reason {
                Some(x) => {
                    let reason = x.clone();
                    let user_frame_filename = match &m.fail_user_frame_filename {
                        Some(x2) => x2.clone(),
                        None => String::from_str("N/A"),
                    };
                    let user_frame_lineno = match &m.fail_user_frame_lineno {
                        Some(x2) => *x2,
                        None => 0,
                    };
                    st.failures.push(
                        FailureRecord {
                            compile_id: clone_opt_cid(&e.compile_id),
                            lineno: lineno as u64,
                            kind: FailureKind::Failure {
                                fail_type: f.clone(),
                                reason,
                                user_frame_filename,
                                user_frame_lineno,
                            },
                        },
                    );
                },
                None => {
                    // a failure type without a reason is a malformed
                    // record: counted, never a pass abort
                    st.stats.fail_json = bump(st.stats.fail_json);
                },
            }
        }
        let mut mcid = clone_opt_cid(&e.compile_id);
        match &mut mcid {
            Some(c) => {
                if c.frame_compile_id.is_some() {
                    c.attempt = Some(0);
                }
            },
            None => {},
        }
        push_metrics(&mut st.metrics_index, mcid, clone_metrics(m));
    }
}

/// Collects the export-mode failure entries and the symbolic-expression
/// index; a guard record whose prefix is not the evaluation marker ends
/// the record's processing after its side-log line.
fn handle_export_record(st: &mut PassState, lineno: usize, e: &Envelope, h: &GlogHeader) -> (stop:
    bool)
    requires
        state_wf(*old(st)),
    ensures
        state_wf(*final(st)),
        *final(st) == (PassState {
            export_failures: final(st).export_failures,
            sym_expr_info_index: final(st).sym_expr_info_index,
            shortraw: final(st).shortraw,
            stats: final(st).stats,
            ..*old(st)
        }),
        final(st).stats == (Stats {
            fail_json: final(st).stats.fail_json,
            fail_key_conflict: final(st).stats.fail_key_conflict,
            ..old(st).stats
        }),
{
    {
        let compile_dir = match &e.compile_id {
            Some(c) => c.as_directory_name(),
            None => {
                proof {
                    reveal_strlit("unknown_");
                }
                let mut d = String::from_str("unknown_");
                let n = u64_to_string(lineno as u64);
                d.append(n.as_str());
                d
            },
        };
        if let Some(g) = &e.guard_added {
            let is_eval = match &g.prefix {
                Some(p) => str_eq(p.as_str(), "eval"),
                None => false,
            };
            if !is_eval {
                write_to_shortraw(st, h, None);
                return true;
            }
            st.export_failures.push(
                ExportFailure {
                    failure_type: String::from_str("Guard Evaluated"),
                    expr: clone_opt_string(&g.expr),
                    result: None,
                    op: None,
                    detail: None,
                    compile_dir: compile_dir.clone(),
                },
            );
        }
        if let Some(g) = &e.propagate_real_tensors_provenance {
            st.export_failures.push(
                ExportFailure {
                    failure_type: String::from_str("Data Dependent Error"),
                    expr: clone_opt_string(&g.expr),
                    result: clone_opt_string(&g.result),
                    op: None,
                    detail: None,
                    compile_dir: compile_dir.clone(),
                },
            );
        }
        if let Some(k) = &e.missing_fake_kernel {
            st.export_failures.push(
                ExportFailure {
                    failure_type: String::from_str("Missing Fake Kernel"),
                    expr: None,
                    result: None,
                    op: clone_opt_string(&k.op),
                    detail: None,
                    compile_dir: compile_dir.clone(),
                },
            );
        }
        if let Some(k) = &e.mismatched_fake_kernel {
            st.export_failures.push(
                ExportFailure {
                    failure_type: String::from_str("Mismatched Fake Kernel"),
                    expr: None,
                    result: None,
                    op: clone_opt_string(&k.op),
                    detail: clone_opt_string(&k.reason),
                    compile_dir: compile_dir.clone(),
                },
            );
        }
        if let Some(si) = &e.expression_created {
            if let Some(rid) = si.result_id {
                st.sym_expr_info_index.insert(rid, clone_symexpr(si));
            }
        }
        if let Some(us) = &e.create_unbacked_symbol {
            if let Some(nid) = us.node_id {
                st.sym_expr_info_index.insert(
                    nid,
                    crate::envelope::SymExprInfoMetadata {
                        result: clone_opt_string(&us.symbol),
                        result_id: us.node_id,
                        method: None,
                        arguments: None,
                        argument_ids: None,
                        user_stack: clone_opt_stack(&us.user_stack),
                        stack: clone_opt_stack(&us.stack),
                    },
                );
            }
        }
    }
    false
}

/// Feeds the stack tries, the chromium event list and the per-compile-id
/// indexes from one accepted record; a chromium event whose payload is
/// not JSON is counted, never a pass abort.
fn handle_index_records(st: &mut PassState, e: &Envelope, payload: &str)
    requires
        state_wf(*old(st)),
    ensures
        state_wf(*final(st)),
        *final(st) == (PassState {
            chromium_events: final(st).chromium_events,
            specialization_index: final(st).specialization_index,
            guard_added_fast_index: final(st).guard_added_fast_index,
            stack_index: final(st).stack_index,
            stack_trie: final(st).stack_trie,
            unknown_stack_trie: final(st).unknown_stack_trie,
            stats: final(st).stats,
            ..*old(st)
        }),
        final(st).stats == (Stats { fail_json: final(st).stats.fail_json, ..old(st).stats }),
{
    if let Some(stack) = &e.stack {
        st.unknown_stack_trie.insert(clone_stack(stack), None);
    }
    if e.chromium_event.is_some() {
        match json_parse(payload) {
            Some(v) => {
                st.chromium_events.push(v);
            },
            None => {
                // a chromium event whose payload is not JSON is counted,
                // never a pass abort
                st.stats.fail_json = bump(st.stats.fail_json);
            },
        }
    }
    if let Some(sp) = &e.symbolic_shape_specialization {
        push_specialization(
            &mut st.specialization_index,
            clone_opt_cid(&e.compile_id),
            clone_specialization(sp),
        );
    }
    if let Some(gf) = &e.guard_added_fast {
        push_fastguard(
            &mut st.guard_added_fast_index,
            clone_opt_cid(&e.compile_id),
            clone_fastguard(gf),
        );
    }
    if let Some(ds) = &e.dynamo_start {
        if let Some(stack0) = &ds.stack {
            let mut stack = clone_stack(stack0);
            maybe_remove_convert_frame_suffixes(&mut stack, &st.intern);
            st.stack_index.push((clone_opt_cid(&e.compile_id), clone_stack(&stack)));
            st.stack_trie.insert(stack, clone_opt_cid(&e.compile_id));
        }
    }
}

/// Handles one accepted, in-rank record: runs the registered parsers,
/// collects metrics, failure and export bookkeeping, feeds the tries and
/// indexes, writes the payload fallback file and the side-log line.
#[verifier::rlimit(100)]
fn handle_record(
    st: &mut PassState,
    lineno: usize,
    e: Envelope,
    payload: String,
    h: &GlogHeader,
    config: &ParseConfig,
    defaults: &Vec<LogParser>,
)
    requires
        state_wf(*old(st)),
    ensures
        state_wf(*final(st)),
        final(st).stats == (Stats {
            fail_json: final(st).stats.fail_json,
            fail_dynamo_guards_json: final(st).stats.fail_dynamo_guards_json,
            fail_parser: final(st).stats.fail_parser,
            fail_key_conflict: final(st).stats.fail_key_conflict,
            ..old(st).stats
        }),
        final(st).expected_rank == old(st).expected_rank,
        final(st).intern == old(st).intern,
        final(st).directory.entries@.len() >= old(st).directory.entries@.len(),
        forall|k: int|
            0 <= k < old(st).directory.entries@.len()
                ==> (#[trigger] final(st).directory.entries@[k]).0 == old(
                st,
            ).directory.entries@[k].0,
        exists|bk: int|
            0 <= bk < final(st).directory.entries@.len()
                && (#[trigger] final(st).directory.entries@[bk]).0 == (match e.compile_id {
                Some(c) => Some(c.spec_normalize()),
                None => None::<CompileId>,
            }),
        // A compilation-metrics record leaves its metrics page among the
        // outputs.
        e.compilation_metrics is Some ==> spec_content_present(
            final(st).output@,
            spec_metrics_page("Compilation metrics"@, e.compile_id),
        ),
        // A checked payload is delivered whatever the integrity check
        // said: some output file carries it, verbatim or pretty-printed —
        // the fallback payload file when no handler claimed it.
        (e.has_payload is Some && payload@.len() > 0 && e.chromium_event is None
            && !config.export) ==> spec_payload_recorded(final(st).output@, payload@),
{
    let mut cid_entry = clone_opt_cid(&e.compile_id);
    match &mut cid_entry {
        Some(c) => {
            c.normalize();
        },
        None => {},
    }
    let bidx = st.directory.bucket_index(&cid_entry);
    let ghost d1 = st.directory.entries@;
    proof {
        assert(d1[bidx as int].0 == cid_entry);
    }
    let mut payload_filename: Option<String> = None;
    let mut pi: usize = 0;
    while pi < defaults.len()
        invariant
            state_wf(*st),
            bidx < st.directory.entries@.len(),
            pi <= defaults@.len(),
            st.directory.entries@.len() == d1.len(),
            forall|k: int|
                0 <= k < d1.len() ==> (#[trigger] st.directory.entries@[k]).0 == d1[k].0,
            st.stats == (Stats {
                fail_dynamo_guards_json: st.stats.fail_dynamo_guards_json,
                fail_parser: st.stats.fail_parser,
                ..old(st).stats
            }),
            st.expected_rank == old(st).expected_rank,
            st.intern == old(st).intern,
            payload_filename matches Some(_) ==> spec_payload_recorded(st.output@, payload@),
        decreases defaults@.len() - pi,
    {
        let ghost o_prev = st.output@;
        let ghost pf_prev = payload_filename;
        run_parser(st, bidx, &defaults[pi], lineno, &e, payload.as_str(), &mut payload_filename);
        proof {
            assert(st.output@.len() >= o_prev.len() && st.output@.subrange(
                0,
                o_prev.len() as int,
            ) =~= o_prev);
            if payload_filename is Some {
                if pf_prev is Some {
                    lemma_payload_recorded_extend(o_prev, st.output@, payload@);
                } else {
                    assert(st.output@[o_prev.len() as int].1@ == payload@ || st.output@[o_prev.len() as int].1@
                        == spec_pretty_or_raw(payload@));
                }
            }
        }
        pi = pi + 1;
    }
    let mut ci: usize = 0;
    while ci < config.custom_parsers.len()
        invariant
            state_wf(*st),
            bidx < st.directory.entries@.len(),
            ci <= config.custom_parsers@.len(),
            st.directory.entries@.len() == d1.len(),
            forall|k: int|
                0 <= k < d1.len() ==> (#[trigger] st.directory.entries@[k]).0 == d1[k].0,
            st.stats == (Stats {
                fail_dynamo_guards_json: st.stats.fail_dynamo_guards_json,
                fail_parser: st.stats.fail_parser,
                ..old(st).stats
            }),
            st.expected_rank == old(st).expected_rank,
            st.intern == old(st).intern,
            payload_filename matches Some(_) ==> spec_payload_recorded(st.output@, payload@),
        decreases config.custom_parsers@.len() - ci,
    {
        let ghost o_prev = st.output@;
        let ghost pf_prev = payload_filename;
        run_parser(
            st,
            bidx,
            &config.custom_parsers[ci],
            lineno,
            &e,
            payload.as_str(),
            &mut payload_filename,
        );
        proof {
            assert(st.output@.len() >= o_prev.len() && st.output@.subrange(
                0,
                o_prev.len() as int,
            ) =~= o_prev);
            if payload_filename is Some {
                if pf_prev is Some {
                    lemma_payload_recorded_extend(o_prev, st.output@, payload@);
                } else {
                    assert(st.output@[o_prev.len() as int].1@ == payload@ || st.output@[o_prev.len() as int].1@
                        == spec_pretty_or_raw(payload@));
                }
            }
        }
        ci = ci + 1;
    }
    proof {
        assert(st.directory.entries@[bidx as int].0 == cid_entry);
        assert(cid_entry == (match e.compile_id {
            Some(c) => Some(c.spec_normalize()),
            None => None::<CompileId>,
        }));
    }
    if e.compilation_metrics.is_some() {
        let page = metrics_page("Compilation metrics", &e.compile_id);
        let raw = build_file_path("compilation_metrics.html", lineno, &e.compile_id);
        let f = add_unique_suffix(raw, st.output_count);
        let ghost o_prev = st.output@;
        let mut bucket_adds: Vec<OutputFile> = Vec::new();
        add_file_output(f, page, &mut st.output, &mut bucket_adds, &mut st.output_count);
        let fe = bucket_adds.remove(0);
        st.directory.push_at(bidx, fe);
        proof {
            assert(st.output@[o_prev.len() as int].1@ == spec_metrics_page(
                "Compilation metrics"@,
                e.compile_id,
            ));
            if payload_filename is Some {
                lemma_payload_recorded_extend(o_prev, st.output@, payload@);
            }
        }
    }
    proof {
        if e.compilation_metrics is Some {
            assert(spec_content_present(
                st.output@,
                spec_metrics_page("Compilation metrics"@, e.compile_id),
            ));
        }
    }
    handle_metrics_record(st, lineno, &e);
    if config.export {
        let stop = handle_export_record(st, lineno, &e, h);
        if stop {
            proof {
                assert(st.directory.entries@[bidx as int].0 == cid_entry);
                if e.compilation_metrics is Some {
                    assert(spec_content_present(
                        st.output@,
                        spec_metrics_page("Compilation metrics"@, e.compile_id),
                    ));
                }
            }
            return ;
        }
    }
    handle_index_records(st, &e, payload.as_str());
    let final_payload_filename: Option<String> = match payload_filename {
        Some(f) => Some(f),
        None => {
            match &e.has_payload {
                Some(hash) => {
                    if payload.as_str().unicode_len() > 0 && e.chromium_event.is_none() {
                        proof {
                            reveal_strlit("payloads/");
                            reveal_strlit(".txt");
                        }
                        let mut p = String::from_str("payloads/");
                        p.append(hash.as_str());
                        p.append(".txt");
                        let ghost o_prev = st.output@;
                        st.output.push((p.clone(), payload.clone()));
                        proof {
                            assert(st.output@[o_prev.len() as int].1@ == payload@);
                            assert(spec_payload_recorded(st.output@, payload@));
                            if e.compilation_metrics is Some {
                                assert(st.output@.subrange(0, o_prev.len() as int) =~= o_prev);
                                lemma_content_present_extend(
                                    o_prev,
                                    st.output@,
                                    spec_metrics_page("Compilation metrics"@, e.compile_id),
                                );
                            }
                        }
                        Some(p)
                    } else {
                        None
                    }
                },
                None => None,
            }
        },
    };
    if e.chromium_event.is_none() {
        write_to_shortraw(st, h, final_payload_filename);
    }
    proof {
        assert(st.directory.entries@[bidx as int].0 == cid_entry);
    }
}

/// Deep copy helpers for metadata carried into the pass indexes.
fn clone_opt_string(o: &Option<String>) -> (r: Option<String>)
    ensures
        crate::envelope::vs_opt_str(r) == crate::envelope::vs_opt_str(*o),
{
    match o {
        Some(s) => Some(s.clone()),
        None => None,
    }
}

fn clone_opt_stack(o: &Option<StackSummary>) -> (r: Option<StackSummary>) {
    match o {
        Some(s) => Some(clone_stack(s)),
        None => None,
    }
}

fn clone_string_list(l: &Vec<String>) -> (r: Vec<String>) {
    let mut out: Vec<String> = Vec::new();
    let mut i: usize = 0;
    while i < l.len()
        decreases l@.len() - i,
    {
        out.push(l[i].clone());
        i = i + 1;
    }
    out
}

fn clone_opt_string_list(o: &Option<Vec<String>>) -> (r: Option<Vec<String>>) {
    match o {
        Some(l) => Some(clone_string_list(l)),
        None => None,
    }
}

fn clone_u64_list(l: &Vec<u64>) -> (r: Vec<u64>) {
    let mut out: Vec<u64> = Vec::new();
    let mut i: usize = 0;
    while i < l.len()
        decreases l@.len() - i,
    {
        out.push(l[i]);
        i = i + 1;
    }
    out
}

fn clone_metrics(m: &CompilationMetricsMetadata) -> (r: CompilationMetricsMetadata) {
    CompilationMetricsMetadata {
        co_name: clone_opt_string(&m.co_name),
        co_filename: clone_opt_string(&m.co_filename),
        co_firstlineno: m.co_firstlineno,
        restart_reasons: clone_opt_string_list(&m.restart_reasons),
        fail_type: clone_opt_string(&m.fail_type),
        fail_reason: clone_opt_string(&m.fail_reason),
        fail_user_frame_filename: clone_opt_string(&m.fail_user_frame_filename),
        fail_user_frame_lineno: m.fail_user_frame_lineno,
    }
}

fn clone_symexpr(m: &crate::envelope::SymExprInfoMetadata) -> (r:
    crate::envelope::SymExprInfoMetadata) {
    crate::envelope::SymExprInfoMetadata {
        result: clone_opt_string(&m.result),
        result_id: m.result_id,
        method: clone_opt_string(&m.method),
        arguments: clone_opt_string_list(&m.arguments),
        argument_ids: match &m.argument_ids {
            Some(l) => Some(clone_u64_list(l)),
            None => None,
        },
        user_stack: clone_opt_stack(&m.user_stack),
        stack: clone_opt_stack(&m.stack),
    }
}

fn clone_specialization(m: &SymbolicShapeSpecializationMetadata) -> (r:
    SymbolicShapeSpecializationMetadata) {
    SymbolicShapeSpecializationMetadata {
        symbol: clone_opt_string(&m.symbol),
        sources: clone_opt_string_list(&m.sources),
        value: clone_opt_string(&m.value),
        user_stack: clone_opt_stack(&m.user_stack),
        stack: clone_opt_stack(&m.stack),
    }
}

fn clone_fastguard(m: &GuardAddedFastMetadata) -> (r: GuardAddedFastMetadata) {
    GuardAddedFastMetadata {
        expr: clone_opt_string(&m.expr),
        user_stack: clone_opt_stack(&m.user_stack),
        stack: clone_opt_stack(&m.stack),
    }
}

/// The final path component of a name.
pub open spec fn spec_last_component(p: Seq<char>) -> Seq<char> {
    p.subrange(crate::directory::spec_component_start(p), p.len() as int)
}

/// The JSON document of one artifact: its five fields, inserted into an
/// object in this order (the object keeps ascending key order).
pub open spec fn spec_artifact_doc(f: OutputFile) -> Jv {
    let e1 = crate::json::jv_obj_insert(Seq::empty(), "url"@, Jv::Str(f.url@));
    let e2 = crate::json::jv_obj_insert(e1, "name"@, Jv::Str(spec_last_component(f.name@)));
    let e3 = crate::json::jv_obj_insert(e2, "number"@, Jv::UInt(f.number));
    let e4 = crate::json::jv_obj_insert(e3, "suffix"@, Jv::Str(f.suffix@));
    let e5 = crate::json::jv_obj_insert(e4, "readable_url"@, (match f.readable_url {
        Some(u) => Jv::Str(u@),
        None => Jv::Null,
    }));
    Jv::Obj(e5)
}

/// The JSON document of one bucket: its artifacts, in bucket order.
pub open spec fn spec_bucket_doc(files: Seq<OutputFile>) -> Jv {
    Jv::Obj(
        crate::json::jv_obj_insert(
            Seq::empty(),
            "artifacts"@,
            Jv::Arr(Seq::new(files.len(), |i: int| spec_artifact_doc(files[i]))),
        ),
    )
}

/// The serialized directory key of a bucket.
pub open spec fn spec_bucket_key(k: Option<CompileId>) -> Seq<char> {
    match k {
        Some(c) => c.spec_directory_name(),
        None => "unknown"@,
    }
}

/// The entries of the directory document after the first `upto` buckets.
pub open spec fn spec_dir_entries(
    entries: Seq<(Option<CompileId>, Vec<OutputFile>)>,
    upto: int,
) -> Seq<(Seq<char>, Jv)>
    decreases upto,
{
    if upto <= 0 {
        Seq::empty()
    } else {
        crate::json::jv_obj_insert(
            spec_dir_entries(entries, upto - 1),
            spec_bucket_key(entries[upto - 1].0),
            spec_bucket_doc(entries[upto - 1].1@),
        )
    }
}

/// The compile_directory.json document: one entry per bucket, keyed by
/// the id's display string (or "unknown"), each carrying its artifacts
/// with url, shortened name, sequence number, status suffix and the
/// optional readable companion.
fn directory_to_json(directory: &CompileDirectory) -> (r: String)
    requires
        directory.wf(),
    ensures
        r@ == crate::json::rendered_pretty(
            Jv::Obj(spec_dir_entries(directory.entries@, directory.entries@.len() as int)),
        ),
{
    proof {
        reveal_strlit("unknown");
    }
    let mut root = empty_object_value();
    let mut k: usize = 0;
    while k < directory.entries.len()
        invariant
            k <= directory.entries@.len(),
            jmodel(root) is Obj,
            jv_top_sorted(jmodel(root)),
            jmodel(root) == Jv::Obj(spec_dir_entries(directory.entries@, k as int)),
        decreases directory.entries@.len() - k,
    {
        let key = match &directory.entries[k].0 {
            Some(c) => c.as_string(),
            None => String::from_str("unknown"),
        };
        let files = &directory.entries[k].1;
        let mut arts: Vec<serde_json::Value> = Vec::new();
        let mut a: usize = 0;
        while a < files.len()
            invariant
                a <= files@.len(),
                files == directory.entries@[k as int].1,
                arts@.map_values(|x: serde_json::Value| jmodel(x)) == Seq::new(
                    a as nat,
                    |i: int| spec_artifact_doc(files@[i]),
                ),
            decreases files@.len() - a,
        {
            let f = &files[a];
            let mut art = empty_object_value();
            proof {
                lemma_obj_insert_sorted(jmodel(art)->Obj_0, "url"@, Jv::Str(f.url@));
            }
            object_insert(&mut art, "url", string_value(f.url.as_str()));
            let name_tail = last_component(&f.name);
            proof {
                lemma_obj_insert_sorted(
                    jmodel(art)->Obj_0,
                    "name"@,
                    Jv::Str(spec_last_component(f.name@)),
                );
            }
            object_insert(&mut art, "name", string_value(name_tail.as_str()));
            proof {
                lemma_obj_insert_sorted(jmodel(art)->Obj_0, "number"@, Jv::UInt(f.number));
            }
            object_insert(&mut art, "number", u64_value(f.number));
            proof {
                lemma_obj_insert_sorted(jmodel(art)->Obj_0, "suffix"@, Jv::Str(f.suffix@));
            }
            object_insert(&mut art, "suffix", string_value(f.suffix.as_str()));
            let ru = match &f.readable_url {
                Some(u) => string_value(u.as_str()),
                None => null_value(),
            };
            proof {
                lemma_obj_insert_sorted(jmodel(art)->Obj_0, "readable_url"@, jmodel(ru));
            }
            object_insert(&mut art, "readable_url", ru);
            proof {
                assert(jmodel(art) == spec_artifact_doc(files@[a as int]));
            }
            let ghost am0 = arts@.map_values(|x: serde_json::Value| jmodel(x));
            let ghost artm = jmodel(art);
            arts.push(art);
            a = a + 1;
            proof {
                assert(arts@.map_values(|x: serde_json::Value| jmodel(x)) =~= am0.push(artm));
                assert(am0.push(artm) =~= Seq::new(a as nat, |i: int| spec_artifact_doc(files@[i])));
            }
        }
        let mut bucket = empty_object_value();
        let arr = array_value(arts);
        proof {
            lemma_obj_insert_sorted(jmodel(bucket)->Obj_0, "artifacts"@, jmodel(arr));
            assert(jmodel(arr)->Arr_0 =~= Seq::new(
                files@.len(),
                |i: int| spec_artifact_doc(files@[i]),
            ));
        }
        object_insert(&mut bucket, "artifacts", arr);
        proof {
            assert(jmodel(bucket) == spec_bucket_doc(files@));
            lemma_obj_insert_sorted(jmodel(root)->Obj_0, key@, jmodel(bucket));
        }
        object_insert(&mut root, key.as_str(), bucket);
        k = k + 1;
    }
    value_to_string_pretty(&root)
}

/// The last path component of a name.
fn last_component(p: &String) -> (r: String)
    ensures
        r@ == spec_last_component(p@),
{
    let v = crate::strutil::str_chars(p.as_str());
    let cs = crate::directory::component_start(&v);
    let mut out: Vec<char> = Vec::new();
    let mut i = cs;
    while i < v.len()
        invariant
            cs <= i <= v@.len(),
            out@ == v@.subrange(cs as int, i as int),
        decreases v@.len() - i,
    {
        out.push(v[i]);
        i = i + 1;
        proof {
            assert(out@ =~= v@.subrange(cs as int, i as int));
        }
    }
    crate::strutil::chars_to_string(&out)
}

/// The document of the serialized string table.
pub open spec fn spec_table_doc(table: Seq<Option<String>>) -> Jv {
    Jv::Obj(
        crate::json::jv_obj_insert(
            Seq::empty(),
            "string_table"@,
            Jv::Arr(
                Seq::new(
                    table.len(),
                    |i: int|
                        match table[i] {
                            Some(st) => Jv::Str(st@),
                            None => Jv::Null,
                        },
                ),
            ),
        ),
    )
}

/// The serialized string table: the first line of the side log, an
/// object carrying the dense id-to-string array.
fn string_table_line(table: &Vec<Option<String>>) -> (r: String)
    ensures
        r@ == crate::json::rendered(spec_table_doc(table@)),
{
    let mut vals: Vec<serde_json::Value> = Vec::new();
    let mut i: usize = 0;
    while i < table.len()
        invariant
            i <= table@.len(),
            vals@.map_values(|x: serde_json::Value| jmodel(x)) == Seq::new(
                i as nat,
                |k: int|
                    match table@[k] {
                        Some(st) => Jv::Str(st@),
                        None => Jv::Null,
                    },
            ),
        decreases table@.len() - i,
    {
        let v = match &table[i] {
            Some(s) => string_value(s.as_str()),
            None => null_value(),
        };
        let ghost vm0 = vals@.map_values(|x: serde_json::Value| jmodel(x));
        let ghost vm = jmodel(v);
        vals.push(v);
        i = i + 1;
        proof {
            assert(vals@.map_values(|x: serde_json::Value| jmodel(x)) =~= vm0.push(vm));
            assert(vm0.push(vm) =~= Seq::new(
                i as nat,
                |k: int|
                    match table@[k] {
                        Some(st) => Jv::Str(st@),
                        None => Jv::Null,
                    },
            ));
        }
    }
    let arr = array_value(vals);
    let mut obj = empty_object_value();
    proof {
        lemma_obj_insert_sorted(jmodel(obj)->Obj_0, "string_table"@, jmodel(arr));
        assert(jmodel(arr)->Arr_0 =~= Seq::new(
            table@.len(),
            |k: int|
                match table@[k] {
                    Some(st) => Jv::Str(st@),
                    None => Jv::Null,
                },
        ));
    }
    object_insert(&mut obj, "string_table", arr);
    proof {
        assert(jmodel(obj) == spec_table_doc(table@));
    }
    value_to_string(&obj)
}

/// The per-line relation of the pass: everything `process_line`
/// promises of one step, from the state before the line (`pre`) to the
/// state after it (`post`) and the index of the next unconsumed line.
pub open spec fn spec_line_rel(
    lines: Seq<String>,
    i: int,
    config: ParseConfig,
    pre: PassState,
    post: PassState,
    next: int,
) -> bool {
    &&& 0 <= i < lines.len()
    &&& i < next <= lines.len()
    &&& (!glog_ok(lines[i]@) ==> (next == i + 1 && post == (PassState {
        stats: Stats { fail_glog: spec_bump(pre.stats.fail_glog), ..pre.stats },
        ..pre
    })))
    &&& ({
        let l = lines[i]@;
        &&& glog_ok(l)
        &&& (text_model(spec_payload_of(l)) matches Some(m) && env_ok(m)
            && spec_is_intern_record(m))
    }) ==> ({
        let l = lines[i]@;
        let m = text_model(spec_payload_of(l))->Some_0;
        let entry = crate::envelope::sp_str_entry(crate::json::jv_get(m, "str"@)->Some_0);
        &&& next == i + 1
        &&& post.intern@.len() == pre.intern@.len() + 1
        &&& post.intern@.subrange(0, pre.intern@.len() as int) == pre.intern@
        &&& post.intern@.last().0 == entry.1
        &&& post.intern@.last().1@ == entry.0
        &&& post.output == pre.output
        &&& post.directory == pre.directory
        &&& post.output_count == pre.output_count
        &&& post.shortraw == pre.shortraw
        &&& post.chromium_events == pre.chromium_events
        &&& post.failures == pre.failures
        &&& post.expected_rank == pre.expected_rank
        &&& post.stats == (Stats { unknown: post.stats.unknown, ..pre.stats })
    })
    &&& ({
        let l = lines[i]@;
        &&& glog_ok(l)
        &&& (text_model(spec_payload_of(l)) matches Some(m) && env_ok(m)
            && !spec_is_intern_record(m) && spec_expected_hash(m) is Some)
    }) ==> ({
        let l = lines[i]@;
        let lv = lines.map_values(|x: String| x@);
        let m = text_model(spec_payload_of(l))->Some_0;
        let d = spec_expected_hash(m)->Some_0;
        let block = spec_cont_payload(lv, i + 1, spec_cont_end(lv, i + 1));
        &&& next == spec_cont_end(lv, i + 1)
        &&& post.stats.fail_payload_md5 == (if spec_integrity_ok(d, block) {
            pre.stats.fail_payload_md5
        } else {
            spec_bump(pre.stats.fail_payload_md5)
        })
    })
    &&& ({
        let l = lines[i]@;
        &&& glog_ok(l)
        &&& (text_model(spec_payload_of(l)) matches Some(m) && env_ok(m)
            && !spec_is_intern_record(m))
    }) ==> ({
        let l = lines[i]@;
        let m = text_model(spec_payload_of(l))->Some_0;
        let rank = (match crate::envelope::sp_opt_u32(m, "rank"@) {
            Some(o) => o,
            None => None,
        });
        &&& (pre.expected_rank is None ==> post.expected_rank == (if rank is Some {
            Some(rank)
        } else {
            None
        }) && post.stats.ok == spec_bump(pre.stats.ok) && post.stats.other_rank
            == pre.stats.other_rank)
        &&& ((pre.expected_rank is None || pre.expected_rank == Some(rank)) ==> exists|bk: int|
            0 <= bk < post.directory.entries@.len()
                && (#[trigger] post.directory.entries@[bk]).0 == spec_bucket_of(m))
        &&& (pre.expected_rank matches Some(r) ==> post.expected_rank == pre.expected_rank && (
        if r == rank {
            post.stats.ok == spec_bump(pre.stats.ok) && post.stats.other_rank
                == pre.stats.other_rank
        } else {
            &&& post.stats.ok == pre.stats.ok
            &&& post.stats.other_rank == spec_bump(pre.stats.other_rank)
            &&& post.output == pre.output
            &&& post.directory == pre.directory
            &&& post.output_count == pre.output_count
            &&& post.chromium_events == pre.chromium_events
            &&& post.intern == pre.intern
        }))
    })
    &&& ({
        let l = lines[i]@;
        &&& glog_ok(l)
        &&& (text_model(spec_payload_of(l)) matches Some(m) && env_ok(m)
            && !spec_is_intern_record(m))
    }) ==> ({
        let l = lines[i]@;
        let lv = lines.map_values(|x: String| x@);
        let m = text_model(spec_payload_of(l))->Some_0;
        let rank = (match crate::envelope::sp_opt_u32(m, "rank"@) {
            Some(o) => o,
            None => None,
        });
        let block = spec_cont_payload(lv, i + 1, spec_cont_end(lv, i + 1));
        ((pre.expected_rank is None || pre.expected_rank == Some(rank))
            && spec_expected_hash(m) is Some && block.len() > 0 && sp_opt_empty(
            m,
            "chromium_event"@,
        ) == Some(false) && !config.export) ==> spec_payload_recorded(post.output@, block)
    })
}

/// An initial pass state: empty everything, no sticky rank yet.
pub open spec fn spec_initial(st: PassState) -> bool {
    &&& st.stats == (Stats {
        ok: 0u64,
        fail_glog: 0u64,
        fail_json: 0u64,
        fail_payload_md5: 0u64,
        other_rank: 0u64,
        fail_dynamo_guards_json: 0u64,
        fail_parser: 0u64,
        fail_key_conflict: 0u64,
        fail_json_serialization: 0u64,
        unknown: 0u64,
    })
    &&& st.expected_rank is None
    &&& st.intern@ == Seq::<(u32, String)>::empty()
    &&& st.directory.entries@.len() == 0
    &&& st.output@.len() == 0
    &&& st.output_count == 0
    &&& st.shortraw@.len() == 0
    &&& st.chromium_events@.len() == 0
    &&& st.failures@.len() == 0
    &&& st.export_failures@.len() == 0
    &&& st.metrics_index@.len() == 0
    &&& st.stack_index@.len() == 0
    &&& st.specialization_index@.len() == 0
    &&& st.guard_added_fast_index@.len() == 0
    &&& st.unknown_fields@.len() == 0
}

/// A chain of per-line steps covering the whole log: state `k` steps to
/// state `k + 1` by processing the line at `idxs[k]`; the first index is
/// 0 and the last one the end of the log, so every line is accounted
/// for by exactly one step.
pub open spec fn spec_pass_chain(
    lines: Seq<String>,
    config: ParseConfig,
    sts: Seq<PassState>,
    idxs: Seq<int>,
) -> bool {
    &&& sts.len() == idxs.len()
    &&& sts.len() >= 1
    &&& idxs[0] == 0
    &&& idxs.last() == lines.len() as int
    &&& forall|k: int|
        0 <= k < sts.len() - 1 ==> #[trigger] spec_line_rel(
            lines,
            idxs[k],
            config,
            sts[k],
            sts[k + 1],
            idxs[k + 1],
        )
}

/// Runs one interpreter pass over the lines of a log.
///
/// Grammar failures, undecodable records, integrity mismatches, off-rank
/// records, guard-JSON and handler failures accumulate in counters while
/// ingestion continues; only at pass end does strict mode turn a nonzero
/// failure sum into a hard error, and strict-compile-id mode a record in
/// an unknown-compile-id bucket.
pub fn parse_log(lines: &Vec<String>, config: &ParseConfig) -> (r: Result<ParseResult, ParseError>)
    ensures
        r matches Err(e) ==> (match e {
            ParseError::Strict(s) => config.strict && spec_strict_sum(s) > 0,
            ParseError::UnknownCompileId => config.strict_compile_id,
        }),
        // The result is the fold of the per-line relation over the log:
        // a chain of `spec_line_rel` steps leads from an initial state,
        // through every line, to the state the result reports — on the
        // strict-compile-id error, one whose directory indeed holds an
        // unknown-compile-id bucket.
        exists|sts: Seq<PassState>, idxs: Seq<int>|
            {
                &&& #[trigger] spec_pass_chain(lines@, *config, sts, idxs)
                &&& spec_initial(sts[0])
                &&& (match r {
                    Ok(pr) => {
                        &&& sts.last().stats == pr.stats
                        &&& sts.last().output == pr.output
                        &&& sts.last().directory == pr.directory
                        &&& sts.last().intern == pr.intern
                        &&& sts.last().failures == pr.failures
                        &&& sts.last().export_failures == pr.export_failures
                        &&& sts.last().metrics_index == pr.metrics_index
                        &&& sts.last().unknown_fields == pr.unknown_fields
                    },
                    Err(ParseError::Strict(s)) => sts.last().stats == s,
                    Err(ParseError::UnknownCompileId) => exists|bk: int|
                        0 <= bk < sts.last().directory.entries@.len() && (
                        #[trigger] sts.last().directory.entries@[bk]).0 is None,
                })
            },
        r matches Ok(pr) ==> {
            &&& !(config.strict && spec_strict_sum(pr.stats) > 0)
            &&& !(config.strict_compile_id && pr.has_unknown_compile_id)
            &&& pr.directory.wf()
            &&& pr.has_unknown_compile_id == exists|k: int|
                0 <= k < pr.directory.entries@.len() && (
                #[trigger] pr.directory.entries@[k]).0 is None
            &&& pr.directory_json@ == crate::json::rendered_pretty(
                Jv::Obj(spec_dir_entries(pr.directory.entries@, pr.directory.entries@.len() as int)),
            )
            &&& ({
                let line = crate::json::rendered(spec_table_doc(pr.string_table@));
                &&& pr.raw_jsonl@.len() > line.len()
                &&& pr.raw_jsonl@.subrange(0, line.len() as int) == line
                &&& pr.raw_jsonl@[line.len() as int] == '\n'
            })
            &&& pr.string_table@.len() == (if (crate::intern::spec_max_id(pr.intern@) as nat) + 1
                <= usize::MAX as nat {
                crate::intern::spec_max_id(pr.intern@) as nat + 1
            } else {
                usize::MAX as nat
            })
            &&& (forall|i: int|
                0 <= i < pr.string_table@.len() ==> (match #[trigger] pr.string_table@[i] {
                    Some(st) => crate::intern::spec_lookup(pr.intern@, i as u32) == Some(st@),
                    None => crate::intern::spec_lookup(pr.intern@, i as u32) is None,
                }))
        },
{
    let y = current_year();
    let year: u64 = if y < 0 {
        0
    } else if y > 9999 {
        9999
    } else {
        y as u64
    };
    let mut st = PassState {
        stats: Stats::new(),
        expected_rank: None,
        intern: InternTable::new(),
        directory: CompileDirectory::new(),
        output: Vec::new(),
        output_count: 0,
        shortraw: String::new(),
        chromium_events: Vec::new(),
        failures: Vec::new(),
        export_failures: Vec::new(),
        metrics_index: Vec::new(),
        stack_index: Vec::new(),
        specialization_index: Vec::new(),
        guard_added_fast_index: Vec::new(),
        sym_expr_info_index: SymExprInfoIndex::new(),
        stack_trie: StackTrieNode::new(),
        unknown_stack_trie: StackTrieNode::new(),
        unknown_fields: Vec::new(),
        year,
    };
    let defaults = crate::parsers::default_parsers(config);
    let mut i: usize = 0;
    let ghost mut gsts: Seq<PassState> = seq![st];
    let ghost mut gidxs: Seq<int> = seq![0int];
    while i < lines.len()
        invariant
            state_wf(st),
            i <= lines@.len(),
            gsts.len() == gidxs.len(),
            gsts.len() >= 1,
            gidxs[0] == 0,
            gidxs.last() == i as int,
            spec_initial(gsts[0]),
            gsts.last() == st,
            forall|k: int|
                0 <= k < gsts.len() - 1 ==> #[trigger] spec_line_rel(
                    lines@,
                    gidxs[k],
                    *config,
                    gsts[k],
                    gsts[k + 1],
                    gidxs[k + 1],
                ),
        decreases lines@.len() - i,
    {
        let ghost pre = st;
        let ghost i0 = i as int;
        let next = process_line(&mut st, lines, i, config, &defaults);
        proof {
            assert(spec_line_rel(lines@, i0, *config, pre, st, next as int));
            let s0 = gsts;
            let x0 = gidxs;
            gsts = gsts.push(st);
            gidxs = gidxs.push(next as int);
            assert forall|k: int| 0 <= k < gsts.len() - 1 implies #[trigger] spec_line_rel(
                lines@,
                gidxs[k],
                *config,
                gsts[k],
                gsts[k + 1],
                gidxs[k + 1],
            ) by {
                if k < s0.len() - 1 {
                    assert(spec_line_rel(lines@, x0[k], *config, s0[k], s0[k + 1], x0[k + 1]));
                } else {
                    assert(gsts[k] == pre && gidxs[k] == i0);
                    assert(gsts[k + 1] == st && gidxs[k + 1] == next as int);
                }
            }
        }
        i = next;
    }
    let ghost fin = st;
    proof {
        assert(gidxs.last() == lines@.len() as int);
        assert(spec_pass_chain(lines@, *config, gsts, gidxs));
    }
    let chromium_events_json = {
        let mut evs: Vec<serde_json::Value> = Vec::new();
        let mut k: usize = 0;
        while k < st.chromium_events.len()
            invariant
                k <= st.chromium_events@.len(),
            decreases st.chromium_events@.len() - k,
        {
            evs.push(value_clone(&st.chromium_events[k]));
            k = k + 1;
        }
        value_to_string_pretty(&array_value(evs))
    };
    let directory_json = directory_to_json(&st.directory);
    let string_table = st.intern.string_table();
    let first_line = string_table_line(&string_table);
    let ghost line_v = first_line@;
    let mut raw_jsonl = first_line;
    push_char(&mut raw_jsonl, '\n');
    raw_jsonl.append(st.shortraw.as_str());
    proof {
        assert(raw_jsonl@.subrange(0, line_v.len() as int) =~= line_v);
    }
    let has_unknown_compile_id = st.directory.has_unknown_bucket();
    let mut directory_names: Vec<String> = Vec::new();
    let mut dn: usize = 0;
    proof {
        reveal_strlit("(unknown)");
    }
    while dn < st.directory.entries.len()
        invariant
            dn <= st.directory.entries@.len(),
        decreases st.directory.entries@.len() - dn,
    {
        let name = match &st.directory.entries[dn].0 {
            Some(c) => c.as_directory_name(),
            None => String::from_str("(unknown)"),
        };
        directory_names.push(name);
        dn = dn + 1;
    }
    if config.strict && strict_failures_present(&st.stats) {
        proof {
            assert(gsts.last() == fin && fin.stats == st.stats);
        }
        return Err(ParseError::Strict(st.stats));
    }
    if config.strict_compile_id && has_unknown_compile_id {
        proof {
            assert(gsts.last() == fin);
            assert(exists|bk: int|
                0 <= bk < fin.directory.entries@.len() && (
                #[trigger] fin.directory.entries@[bk]).0 is None);
        }
        return Err(ParseError::UnknownCompileId);
    }
    proof {
        assert(gsts.last() == fin);
    }
    Ok(
        ParseResult {
            output: st.output,
            directory: st.directory,
            stats: st.stats,
            intern: st.intern,
            string_table,
            raw_jsonl,
            failures: st.failures,
            export_failures: st.export_failures,
            metrics_index: st.metrics_index,
            stack_index: st.stack_index,
            specialization_index: st.specialization_index,
            guard_added_fast_index: st.guard_added_fast_index,
            sym_expr_info_index: st.sym_expr_info_index,
            stack_trie: st.stack_trie,
            unknown_stack_trie: st.unknown_stack_trie,
            unknown_fields: st.unknown_fields,
            chromium_events_json,
            directory_json,
            has_unknown_compile_id,
            directory_names,
        },
    )
}


} // verus!
