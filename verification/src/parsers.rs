//! Parser dispatch: a registry of (predicate, handler) pairs.
//!
//! Each parser watches one optional field of the envelope; for every
//! accepted in-rank record, every parser whose field is populated runs
//! and returns typed outputs (files, payload reuses, links).  A parser
//! failure is isolated and counted; it never aborts the pass.

use vstd::prelude::*;
use vstd::string::StringExecFns;
use vstd::string::StrSliceExecFns;
use crate::envelope::Envelope;
use crate::envelope::EmptyMetadata;
use crate::envelope::CompileId;
use crate::envelope::GraphDumpMetadata;
use crate::envelope::InductorOutputCodeMetadata;
use crate::envelope::OptimizeDdpSplitChildMetadata;
use crate::envelope::LinkMetadata;
use crate::envelope::ArtifactMetadata;
use crate::envelope::DumpFileMetadata;
use crate::json::json_parse;
use crate::json::text_model;
use crate::json::value_to_string_pretty;
use crate::json::rendered_pretty;
use crate::output::spec_escape;
use crate::output::escape_text;
use crate::strutil::spec_dec;
use crate::strutil::u64_to_string;
use crate::strutil::str_chars;
use crate::strutil::chars_to_string;
use crate::strutil::str_eq;
use crate::strutil::str_contains;
use crate::strutil::spec_contains_seq;
use crate::directory::spec_component_start;
use crate::directory::spec_dot_split;
use crate::directory::component_start;
use crate::directory::dot_split;
use crate::ParseConfig;

verus! {

/// A parser failure, carrying the parser's name for the error log.
#[derive(Debug)]
pub struct ParserError {
    pub parser: String,
}

/// How a payload is reformatted before being written.
pub enum ReformatKind {
    JsonPretty,
}

/// One typed output of a parser.
pub enum ParserOutput {
    /// File to be saved on disk, name made unique by the sequence number.
    File(String, String),
    /// Like File, but without the unique suffix.
    GlobalFile(String, String),
    /// File reusing the continuation payload verbatim.
    PayloadFile(String),
    /// File reusing the payload after a reformatting step.
    PayloadReformatFile(String, ReformatKind),
    /// External link: (name, url).
    Link(String, String),
}

pub type ParserResults = Vec<ParserOutput>;

/// The metadata a parser asked for, borrowed from the envelope.
pub enum Metadata<'e> {
    Empty(&'e EmptyMetadata),
    GraphDump(&'e GraphDumpMetadata),
    InductorOutputCode(&'e InductorOutputCodeMetadata),
    OptimizeDdpSplitChild(&'e OptimizeDdpSplitChildMetadata),
    Link(&'e LinkMetadata),
    Artifact(&'e ArtifactMetadata),
    DumpFile(&'e DumpFileMetadata),
}

/// A structured-log parser: one predicate over the envelope and one
/// handler.  Implement this to add an analysis of your own.
pub trait StructuredLogParser {
    /// The metadata this parser wants; the parser runs only when this
    /// returns a value.
    fn get_metadata<'e>(&self, e: &'e Envelope) -> Option<Metadata<'e>>;

    /// Turns one record into a set of outputs.
    fn parse<'e>(
        &self,
        lineno: usize,
        metadata: Metadata<'e>,
        rank: Option<u32>,
        compile_id: &Option<CompileId>,
        payload: &str,
    ) -> Result<ParserResults, ParserError>;

    /// The parser's name, for error logging.
    fn name(&self) -> &'static str;
}

/// The directory a record's outputs land in: the compile id's directory
/// name, or a line-numbered unknown directory.
pub open spec fn spec_output_dir(lineno: nat, compile_id: Option<CompileId>) -> Seq<char> {
    match compile_id {
        Some(c) => c.spec_directory_name(),
        None => "unknown_"@ + spec_dec(lineno),
    }
}

/// The path of a record-scoped file: its directory, a slash, the name.
pub open spec fn spec_file_path(
    filename: Seq<char>,
    lineno: nat,
    compile_id: Option<CompileId>,
) -> Seq<char> {
    spec_output_dir(lineno, compile_id) + "/"@ + filename
}

/// Builds the path of a record-scoped file.
pub fn build_file_path(filename: &str, lineno: usize, compile_id: &Option<CompileId>) -> (r:
    String)
    ensures
        r@ == spec_file_path(filename@, lineno as nat, *compile_id),
{
    proof {
        reveal_strlit("unknown_");
        reveal_strlit("/");
    }
    let mut dir = match compile_id {
        Some(c) => c.as_directory_name(),
        None => {
            let mut d = String::from_str("unknown_");
            let n = u64_to_string(lineno as u64);
            d.append(n.as_str());
            d
        },
    };
    dir.append("/");
    dir.append(filename);
    dir
}

/// One file output carrying the given content.
pub fn simple_file_output(
    filename: &str,
    lineno: usize,
    compile_id: &Option<CompileId>,
    payload: &str,
) -> (r: Result<ParserResults, ParserError>)
    ensures
        r matches Ok(l) && l@.len() == 1 && (l@[0] matches ParserOutput::File(p, c) && p@
            == spec_file_path(filename@, lineno as nat, *compile_id) && c@ == payload@),
{
    let f = build_file_path(filename, lineno, compile_id);
    let mut l: Vec<ParserOutput> = Vec::new();
    l.push(ParserOutput::File(f, String::from_str(payload)));
    Ok(l)
}

/// One file output reusing the continuation payload verbatim.
pub fn payload_file_output(filename: &str, lineno: usize, compile_id: &Option<CompileId>) -> (r:
    Result<ParserResults, ParserError>)
    ensures
        r matches Ok(l) && l@.len() == 1 && (l@[0] matches ParserOutput::PayloadFile(p) && p@
            == spec_file_path(filename@, lineno as nat, *compile_id)),
{
    let f = build_file_path(filename, lineno, compile_id);
    let mut l: Vec<ParserOutput> = Vec::new();
    l.push(ParserOutput::PayloadFile(f));
    Ok(l)
}

/// One file output reusing the payload after a reformatting step.
pub fn payload_reformat_file_output(
    filename: &str,
    lineno: usize,
    compile_id: &Option<CompileId>,
    kind: ReformatKind,
) -> (r: Result<ParserResults, ParserError>)
    ensures
        r matches Ok(l) && l@.len() == 1 && (l@[0] matches ParserOutput::PayloadReformatFile(
            p,
            k,
        ) && p@ == spec_file_path(filename@, lineno as nat, *compile_id) && k == kind),
{
    let f = build_file_path(filename, lineno, compile_id);
    let mut l: Vec<ParserOutput> = Vec::new();
    l.push(ParserOutput::PayloadReformatFile(f, kind));
    Ok(l)
}

/// Pretty-prints a JSON payload; a payload that is not valid JSON is
/// passed through unchanged.  Pretty-printing preserves the document:
/// the result reparses to the payload's own parsed value.
pub fn format_json_pretty(payload: &str) -> (r: Result<String, ParserError>)
    ensures
        r matches Ok(s) && s@ == (match text_model(payload@) {
            Some(j) => rendered_pretty(j),
            None => payload@,
        }),
        text_model(payload@) is Some ==> text_model(r->Ok_0@) == text_model(payload@),
{
    match json_parse(payload) {
        Some(v) => Ok(value_to_string_pretty(&v)),
        None => Ok(String::from_str(payload)),
    }
}

/// The sentinel envelope field a `SentinelFileParser` watches.
pub enum SentinelField {
    OptimizeDdpSplitGraph,
    CompiledAutogradGraph,
    AotForwardGraph,
    AotBackwardGraph,
    AotInferenceGraph,
    AotJointGraph,
    InductorPostGradGraph,
    InductorPreGradGraph,
    DynamoCppGuardsStr,
    ExportedProgram,
}

/// The watched field's value.
pub open spec fn spec_sentinel_of(f: SentinelField, e: Envelope) -> Option<EmptyMetadata> {
    match f {
        SentinelField::OptimizeDdpSplitGraph => e.optimize_ddp_split_graph,
        SentinelField::CompiledAutogradGraph => e.compiled_autograd_graph,
        SentinelField::AotForwardGraph => e.aot_forward_graph,
        SentinelField::AotBackwardGraph => e.aot_backward_graph,
        SentinelField::AotInferenceGraph => e.aot_inference_graph,
        SentinelField::AotJointGraph => e.aot_joint_graph,
        SentinelField::InductorPostGradGraph => e.inductor_post_grad_graph,
        SentinelField::InductorPreGradGraph => e.inductor_pre_grad_graph,
        SentinelField::DynamoCppGuardsStr => e.dynamo_cpp_guards_str,
        SentinelField::ExportedProgram => e.exported_program,
    }
}

/// Parser for simple output dumps whose metadata is a sentinel: it
/// writes the continuation payload to "<filename>.txt".
pub struct SentinelFileParser {
    pub filename: &'static str,
    pub field: SentinelField,
}

impl SentinelFileParser {
    /// A sentinel parser for the given envelope field.
    pub fn new(filename: &'static str, field: SentinelField) -> (r: SentinelFileParser)
        ensures
            r.filename@ == filename@,
            r.field == field,
    {
        SentinelFileParser { filename, field }
    }

    /// Whether this parser fires on the envelope.
    pub fn fires(&self, e: &Envelope) -> (r: bool)
        ensures
            r == (spec_sentinel_of(self.field, *e) is Some),
    {
        let present = match self.field {
            SentinelField::OptimizeDdpSplitGraph => e.optimize_ddp_split_graph.is_some(),
            SentinelField::CompiledAutogradGraph => e.compiled_autograd_graph.is_some(),
            SentinelField::AotForwardGraph => e.aot_forward_graph.is_some(),
            SentinelField::AotBackwardGraph => e.aot_backward_graph.is_some(),
            SentinelField::AotInferenceGraph => e.aot_inference_graph.is_some(),
            SentinelField::AotJointGraph => e.aot_joint_graph.is_some(),
            SentinelField::InductorPostGradGraph => e.inductor_post_grad_graph.is_some(),
            SentinelField::InductorPreGradGraph => e.inductor_pre_grad_graph.is_some(),
            SentinelField::DynamoCppGuardsStr => e.dynamo_cpp_guards_str.is_some(),
            SentinelField::ExportedProgram => e.exported_program.is_some(),
        };
        present
    }

    /// Emits "<filename>.txt" with the payload.
    pub fn run(&self, lineno: usize, compile_id: &Option<CompileId>) -> (r: Result<
        ParserResults,
        ParserError,
    >)
        ensures
            r matches Ok(l) && l@.len() == 1 && (l@[0] matches ParserOutput::PayloadFile(p) && p@
                == spec_file_path(
                self.filename@ + ".txt"@,
                lineno as nat,
                *compile_id,
            )),
    {
        proof {
            reveal_strlit(".txt");
        }
        let mut name = String::from_str(self.filename);
        name.append(".txt");
        payload_file_output(name.as_str(), lineno, compile_id)
    }
}

/// Parser for graph_dump records: the payload goes to "<name>.txt".
pub struct GraphDumpParser;

impl GraphDumpParser {
    /// Emits "<metadata name>.txt" with the payload.
    pub fn run(
        &self,
        m: &GraphDumpMetadata,
        lineno: usize,
        compile_id: &Option<CompileId>,
    ) -> (r: Result<ParserResults, ParserError>)
        ensures
            r matches Ok(l) && l@.len() == 1 && (l@[0] matches ParserOutput::PayloadFile(p) && p@
                == spec_file_path(m.name@ + ".txt"@, lineno as nat, *compile_id)),
    {
        proof {
            reveal_strlit(".txt");
        }
        let mut name = m.name.clone();
        name.append(".txt");
        payload_file_output(name.as_str(), lineno, compile_id)
    }
}

/// Parser for dynamo_output_graph records.
pub struct DynamoOutputGraphParser;

impl DynamoOutputGraphParser {
    /// Emits "dynamo_output_graph.txt" with the payload.
    pub fn run(&self, lineno: usize, compile_id: &Option<CompileId>) -> (r: Result<
        ParserResults,
        ParserError,
    >)
        ensures
            r matches Ok(l) && l@.len() == 1 && (l@[0] matches ParserOutput::PayloadFile(p) && p@
                == spec_file_path("dynamo_output_graph.txt"@, lineno as nat, *compile_id)),
    {
        payload_file_output("dynamo_output_graph.txt", lineno, compile_id)
    }
}

/// What the syntax highlighter renders for a Python payload, or `None`
/// where highlighting fails; both depend on the text alone.
pub uninterp spec fn py_html_of(s: Seq<char>) -> Option<Seq<char>>;

/// Relies on syntect (SyntaxSet/ThemeSet defaults and
/// highlighted_html_for_string): renders Python source as HTML.  The
/// syntax and theme are embedded constant dumps, so the outcome and the
/// rendered text are functions of the payload alone.
#[verifier::external_body]
fn highlight_python(payload: &str) -> (r: Option<String>)
    ensures
        (r is Some) == (py_html_of(payload@) is Some),
        r matches Some(h) ==> Some(h@) == py_html_of(payload@),
{
    let syntax_set = syntect::parsing::SyntaxSet::load_defaults_newlines();
    let theme_set = syntect::highlighting::ThemeSet::load_defaults();
    let syntax = syntax_set.find_syntax_by_extension("py")?;
    let theme = theme_set.themes.get("InspiredGitHub")?;
    syntect::html::highlighted_html_for_string(payload, &syntax_set, syntax, theme).ok()
}

/// Parser for inductor_output_code records: plain text reuses the
/// payload; otherwise the payload is rendered as highlighted HTML.
pub struct InductorOutputCodeParser {
    pub plain_text: bool,
}

/// The stem of the code filename carried by the metadata.
pub open spec fn spec_code_stem(p: Seq<char>) -> Seq<char> {
    let cs = spec_component_start(p);
    let c = p.subrange(cs, p.len() as int);
    let d = spec_dot_split(c);
    if d < 0 {
        c
    } else {
        c.subrange(0, d)
    }
}

/// The output filename for an inductor code record.
pub open spec fn spec_code_filename(m: InductorOutputCodeMetadata, plain_text: bool) -> Seq<char> {
    let ext = if plain_text {
        ".txt"@
    } else {
        ".html"@
    };
    match m.filename {
        Some(p) => "inductor_output_code_"@ + spec_code_stem(p@) + ext,
        None => "inductor_output_code"@ + ext,
    }
}

impl InductorOutputCodeParser {
    /// A code parser following the configuration's output mode.
    pub fn new(config: &ParseConfig) -> (r: InductorOutputCodeParser)
        ensures
            r.plain_text == config.plain_text,
    {
        InductorOutputCodeParser { plain_text: config.plain_text }
    }

    /// Emits the code file: the payload itself in plain-text mode, the
    /// highlighted HTML otherwise; a highlighting failure is a parser
    /// error.
    pub fn run(
        &self,
        m: &InductorOutputCodeMetadata,
        lineno: usize,
        compile_id: &Option<CompileId>,
        payload: &str,
    ) -> (r: Result<ParserResults, ParserError>)
        ensures
            self.plain_text ==> r is Ok,
            !self.plain_text ==> (r is Ok) == (py_html_of(payload@) is Some),
            r matches Ok(l) ==> l@.len() == 1 && (if self.plain_text {
                l@[0] matches ParserOutput::PayloadFile(p) && p@ == spec_file_path(
                    spec_code_filename(*m, true),
                    lineno as nat,
                    *compile_id,
                )
            } else {
                l@[0] matches ParserOutput::File(p, c) && p@ == spec_file_path(
                    spec_code_filename(*m, false),
                    lineno as nat,
                    *compile_id,
                ) && Some(c@) == py_html_of(payload@)
            }),
    {
        proof {
            reveal_strlit("inductor_output_code_");
            reveal_strlit("inductor_output_code");
            reveal_strlit(".txt");
            reveal_strlit(".html");
        }
        let mut name = match &m.filename {
            Some(p) => {
                let mut n = String::from_str("inductor_output_code_");
                let stem = code_stem(p);
                n.append(stem.as_str());
                n
            },
            None => String::from_str("inductor_output_code"),
        };
        if self.plain_text {
            name.append(".txt");
            payload_file_output(name.as_str(), lineno, compile_id)
        } else {
            name.append(".html");
            match highlight_python(payload) {
                Some(html) => {
                    let f = build_file_path(name.as_str(), lineno, compile_id);
                    let mut l: Vec<ParserOutput> = Vec::new();
                    l.push(ParserOutput::File(f, html));
                    Ok(l)
                },
                None => Err(ParserError { parser: String::from_str("inductor_output_code") }),
            }
        }
    }
}

/// The stem of a path's final component.
fn code_stem(p: &String) -> (r: String)
    ensures
        r@ == spec_code_stem(p@),
{
    let v = str_chars(p.as_str());
    let cs = component_start(&v);
    let stem_end: usize = match dot_split(&v, cs) {
        Some(d) => d,
        None => v.len(),
    };
    let mut out: Vec<char> = Vec::new();
    let mut i = cs;
    while i < stem_end
        invariant
            cs <= i <= stem_end <= v@.len(),
            out@ == v@.subrange(cs as int, i as int),
        decreases stem_end - i,
    {
        out.push(v[i]);
        i = i + 1;
        proof {
            assert(out@ =~= v@.subrange(cs as int, i as int));
        }
    }
    proof {
        let c = v@.subrange(cs as int, v@.len() as int);
        let d = spec_dot_split(c);
        if d >= 0 {
            assert(c.subrange(0, d) =~= v@.subrange(cs as int, stem_end as int));
        } else {
            assert(c =~= v@.subrange(cs as int, stem_end as int));
        }
    }
    chars_to_string(&out)
}

/// Parser for optimize_ddp_split_child records.
pub struct OptimizeDdpSplitChildParser;

impl OptimizeDdpSplitChildParser {
    /// Emits "optimize_ddp_split_child_<name>.txt" with the payload.
    pub fn run(
        &self,
        m: &OptimizeDdpSplitChildMetadata,
        lineno: usize,
        compile_id: &Option<CompileId>,
    ) -> (r: Result<ParserResults, ParserError>)
        ensures
            r matches Ok(l) && l@.len() == 1 && (l@[0] matches ParserOutput::PayloadFile(p) && p@
                == spec_file_path(
                "optimize_ddp_split_child_"@ + m.name@ + ".txt"@,
                lineno as nat,
                *compile_id,
            )),
    {
        proof {
            reveal_strlit("optimize_ddp_split_child_");
            reveal_strlit(".txt");
        }
        let mut name = String::from_str("optimize_ddp_split_child_");
        name.append(m.name.as_str());
        name.append(".txt");
        payload_file_output(name.as_str(), lineno, compile_id)
    }
}

/// The display label of an optional compile id.
pub open spec fn spec_cid_label(cid: Option<CompileId>) -> Seq<char> {
    match cid {
        Some(c) => c.spec_directory_name(),
        None => "(unknown)"@,
    }
}

/// A plain metrics page: a titled HTML document naming the compile id
/// the metrics record belongs to.
pub open spec fn spec_metrics_page(title: Seq<char>, cid: Option<CompileId>) -> Seq<char> {
    "<html><body><h1>"@ + title + "</h1><p>Compile id: "@ + spec_cid_label(cid)
        + "</p></body></html>\n"@
}

/// Builds a plain metrics page.
pub fn metrics_page(title: &str, cid: &Option<CompileId>) -> (r: String)
    ensures
        r@ == spec_metrics_page(title@, *cid),
{
    proof {
        reveal_strlit("<html><body><h1>");
        reveal_strlit("</h1><p>Compile id: ");
        reveal_strlit("(unknown)");
        reveal_strlit("</p></body></html>\n");
    }
    let mut s = String::from_str("<html><body><h1>");
    s.append(title);
    s.append("</h1><p>Compile id: ");
    match cid {
        Some(c) => {
            let cs = c.as_string();
            s.append(cs.as_str());
        },
        None => {
            s.append("(unknown)");
        },
    }
    s.append("</p></body></html>\n");
    s
}

/// Parser for aot_autograd_backward_compilation_metrics records: a plain
/// metrics page in the compile directory.
pub struct AotAutogradBackwardCompilationMetricsParser;

impl AotAutogradBackwardCompilationMetricsParser {
    /// Emits "aot_autograd_backward_compilation_metrics.html".
    pub fn run(&self, lineno: usize, compile_id: &Option<CompileId>) -> (r: Result<
        ParserResults,
        ParserError,
    >)
        ensures
            r matches Ok(l) && l@.len() == 1 && (l@[0] matches ParserOutput::File(p, c) && p@
                == spec_file_path(
                "aot_autograd_backward_compilation_metrics.html"@,
                lineno as nat,
                *compile_id,
            ) && c@ == spec_metrics_page(
                "AOT Autograd backward compilation metrics"@,
                *compile_id,
            )),
    {
        let page = metrics_page("AOT Autograd backward compilation metrics", compile_id);
        simple_file_output(
            "aot_autograd_backward_compilation_metrics.html",
            lineno,
            compile_id,
            page.as_str(),
        )
    }
}

/// Parser for bwd_compilation_metrics records: a plain metrics page in
/// the compile directory.
pub struct BwdCompilationMetricsParser;

impl BwdCompilationMetricsParser {
    /// Emits "bwd_compilation_metrics.html".
    pub fn run(&self, lineno: usize, compile_id: &Option<CompileId>) -> (r: Result<
        ParserResults,
        ParserError,
    >)
        ensures
            r matches Ok(l) && l@.len() == 1 && (l@[0] matches ParserOutput::File(p, c) && p@
                == spec_file_path("bwd_compilation_metrics.html"@, lineno as nat, *compile_id) && c@
                == spec_metrics_page("Backward compilation metrics"@, *compile_id)),
    {
        let page = metrics_page("Backward compilation metrics", compile_id);
        simple_file_output("bwd_compilation_metrics.html", lineno, compile_id, page.as_str())
    }
}

/// Parser for link records: an external href in the compile directory.
pub struct LinkParser;

impl LinkParser {
    /// Emits one link output.
    pub fn run(&self, m: &LinkMetadata) -> (r: Result<ParserResults, ParserError>)
        ensures
            r matches Ok(l) && l@.len() == 1 && (l@[0] matches ParserOutput::Link(n, u) && n@
                == m.name@ && u@ == m.url@),
    {
        let mut l: Vec<ParserOutput> = Vec::new();
        l.push(ParserOutput::Link(m.name.clone(), m.url.clone()));
        Ok(l)
    }
}

/// Parser for artifact records: a payload file whose extension follows
/// the declared encoding; an unsupported encoding is a parser error.
pub struct ArtifactParser;

impl ArtifactParser {
    pub fn run(
        &self,
        m: &ArtifactMetadata,
        lineno: usize,
        compile_id: &Option<CompileId>,
    ) -> (r: Result<ParserResults, ParserError>)
        ensures
            m.encoding@ == "string"@ ==> (r matches Ok(l) && l@.len() == 1 && (
            l@[0] matches ParserOutput::PayloadFile(p) && p@ == spec_file_path(
                m.name@ + ".txt"@,
                lineno as nat,
                *compile_id,
            ))),
            m.encoding@ == "json"@ ==> (r matches Ok(l) && l@.len() == 1 && (
            l@[0] matches ParserOutput::PayloadReformatFile(p, k) && p@ == spec_file_path(
                m.name@ + ".json"@,
                lineno as nat,
                *compile_id,
            ) && k == ReformatKind::JsonPretty)),
            m.encoding@ != "string"@ && m.encoding@ != "json"@ ==> r is Err,
    {
        proof {
            reveal_strlit(".txt");
            reveal_strlit(".json");
            reveal_strlit("string");
            reveal_strlit("json");
            assert("string"@.len() == 6);
            assert("json"@.len() == 4);
            assert("string"@ != "json"@);
        }
        if str_eq(m.encoding.as_str(), "string") {
            let mut name = m.name.clone();
            name.append(".txt");
            payload_file_output(name.as_str(), lineno, compile_id)
        } else if str_eq(m.encoding.as_str(), "json") {
            let mut name = m.name.clone();
            name.append(".json");
            payload_reformat_file_output(name.as_str(), lineno, compile_id, ReformatKind::JsonPretty)
        } else {
            Err(ParserError { parser: String::from_str("artifact") })
        }
    }
}

/// Parser for dump_file records: a global HTML file with line anchors.
pub struct DumpFileParser;

/// The digits at the end of a dump-file name that carry an
/// eval-with-key id, when the name mentions one.
pub open spec fn spec_eval_key_id(name: Seq<char>) -> Option<Seq<char>> {
    if spec_contains_seq(name, "eval_with_key"@) && spec_trailing_digits(name).len() > 0 {
        Some(spec_trailing_digits(name))
    } else {
        None
    }
}

/// The maximal run of digits at the end of the text.
pub open spec fn spec_trailing_digits(s: Seq<char>) -> Seq<char>
    decreases s.len(),
{
    if s.len() > 0 && crate::ingest::spec_is_digit(s.last()) {
        spec_trailing_digits(s.drop_last()) + seq![s.last()]
    } else if s.len() > 0 {
        Seq::empty()
    } else {
        Seq::empty()
    }
}

/// The output filename of a dump-file record.
pub open spec fn spec_dump_filename(name: Seq<char>) -> Seq<char> {
    match spec_eval_key_id(name) {
        Some(id) => "eval_with_key_"@ + id + ".html"@,
        None => name + ".html"@,
    }
}

/// The trailing digit run of a string.
fn trailing_digits(s: &str) -> (r: String)
    ensures
        r@ == spec_trailing_digits(s@),
{
    let v = str_chars(s);
    let mut i = v.len();
    proof {
        assert(v@.subrange(0, v@.len() as int) =~= v@);
    }
    while i > 0 && crate::ingest::is_digit_exec(v[i - 1])
        invariant
            i <= v@.len(),
            spec_trailing_digits(v@) == spec_trailing_digits(v@.subrange(0, i as int)) + v@.subrange(
                i as int,
                v@.len() as int,
            ),
        decreases i,
    {
        proof {
            assert(v@.subrange(0, i as int).last() == v@[i - 1]);
            assert(v@.subrange(0, i as int).drop_last() =~= v@.subrange(0, i - 1));
            assert(spec_trailing_digits(v@.subrange(0, i as int)) =~= spec_trailing_digits(
                v@.subrange(0, i - 1),
            ) + seq![v@[i - 1]]);
            assert(spec_trailing_digits(v@.subrange(0, i - 1)) + (seq![v@[i - 1]] + v@.subrange(
                i as int,
                v@.len() as int,
            )) =~= (spec_trailing_digits(v@.subrange(0, i - 1)) + seq![v@[i - 1]]) + v@.subrange(
                i as int,
                v@.len() as int,
            ));
            assert(seq![v@[i - 1]] + v@.subrange(i as int, v@.len() as int) =~= v@.subrange(
                i - 1,
                v@.len() as int,
            ));
        }
        i = i - 1;
    }
    proof {
        if i > 0 {
            assert(v@.subrange(0, i as int).last() == v@[i - 1]);
            assert(spec_trailing_digits(v@.subrange(0, i as int)) =~= Seq::<char>::empty());
        } else {
            assert(v@.subrange(0, 0) =~= Seq::<char>::empty());
            assert(spec_trailing_digits(v@.subrange(0, 0)) =~= Seq::<char>::empty());
        }
        assert(spec_trailing_digits(v@) =~= v@.subrange(i as int, v@.len() as int));
    }
    let mut out: Vec<char> = Vec::new();
    let mut j = i;
    while j < v.len()
        invariant
            i <= j <= v@.len(),
            out@ == v@.subrange(i as int, j as int),
        decreases v@.len() - j,
    {
        out.push(v[j]);
        j = j + 1;
        proof {
            assert(out@ =~= v@.subrange(i as int, j as int));
        }
    }
    chars_to_string(&out)
}

impl DumpFileParser {
    /// Emits "dump_file/<derived name>" with the payload rendered as
    /// anchored HTML source.
    pub fn run(&self, m: &DumpFileMetadata, payload: &str) -> (r: Result<
        ParserResults,
        ParserError,
    >)
        ensures
            r matches Ok(l) && l@.len() == 1 && (l@[0] matches ParserOutput::GlobalFile(p, c) && p@
                == "dump_file/"@ + spec_dump_filename(m.name@) && c@ == spec_anchor_source(
                payload@,
            )),
    {
        proof {
            reveal_strlit("dump_file/");
            reveal_strlit("eval_with_key_");
            reveal_strlit(".html");
        }
        let digits = trailing_digits(m.name.as_str());
        let has_key = str_contains(m.name.as_str(), "eval_with_key");
        let mut name: String;
        if has_key && digits.as_str().unicode_len() > 0 {
            name = String::from_str("eval_with_key_");
            name.append(digits.as_str());
            name.append(".html");
        } else {
            name = m.name.clone();
            name.append(".html");
        }
        let mut path = String::from_str("dump_file/");
        path.append(name.as_str());
        let html = anchor_source(payload);
        let mut l: Vec<ParserOutput> = Vec::new();
        l.push(ParserOutput::GlobalFile(path, html));
        Ok(l)
    }
}

/// The fixed page head of an anchored source listing.
pub open spec fn spec_anchor_head() -> Seq<char> {
    "<html><head><style>pre span { display: block; } pre span:target { background-color: #ffff00; }</style></head><body><pre>"@
}

/// One anchored source line.
pub open spec fn spec_anchor_line(l: Seq<char>, n: nat) -> Seq<char> {
    "<span id=\"L"@ + spec_dec(n) + "\">"@ + spec_escape(l) + "</span>"@
}

/// The anchored lines of a listing, numbered from 1.
pub open spec fn spec_anchor_lines(ls: Seq<Seq<char>>) -> Seq<char>
    decreases ls.len(),
{
    if ls.len() == 0 {
        Seq::empty()
    } else {
        spec_anchor_lines(ls.drop_last()) + spec_anchor_line(ls.last(), ls.len() as nat)
    }
}

/// The lines of a text, split on newlines, a trailing carriage return
/// stripped from each; a trailing final newline yields no extra line.
pub open spec fn spec_split_lines(s: Seq<char>) -> Seq<Seq<char>>
    decreases s.len(),
{
    if s.len() == 0 {
        Seq::empty()
    } else {
        let nl = spec_first_newline(s);
        if nl < 0 || nl >= s.len() {
            seq![spec_strip_cr(s)]
        } else {
            seq![spec_strip_cr(s.subrange(0, nl))] + spec_split_lines(
                s.subrange(nl + 1, s.len() as int),
            )
        }
    }
}

/// The index of the first newline, or -1.
pub open spec fn spec_first_newline(s: Seq<char>) -> int
    decreases s.len(),
{
    if s.len() == 0 {
        -1
    } else if s[0] == '\n' {
        0
    } else {
        let r = spec_first_newline(s.drop_first());
        if r < 0 {
            -1
        } else {
            r + 1
        }
    }
}

/// The text with one trailing carriage return removed.
pub open spec fn spec_strip_cr(s: Seq<char>) -> Seq<char> {
    if s.len() > 0 && s.last() == '\r' {
        s.drop_last()
    } else {
        s
    }
}

/// The whole anchored source page.
pub open spec fn spec_anchor_source(s: Seq<char>) -> Seq<char> {
    spec_anchor_head() + spec_anchor_lines(spec_split_lines(s)) + "</pre></body></html>"@
}

/// Splits a text into lines on newlines, stripping one trailing carriage
/// return per line.
pub fn split_lines(s: &str) -> (r: Vec<String>)
    ensures
        r@.map_values(|l: String| l@) == spec_split_lines(s@),
{
    let v = str_chars(s);
    let n = v.len();
    let mut out: Vec<String> = Vec::new();
    let mut start: usize = 0;
    let mut i: usize = 0;
    proof {
        assert(v@.subrange(0, n as int) =~= v@);
        assert(out@.map_values(|l: String| l@) =~= Seq::<Seq<char>>::empty());
        assert(spec_split_lines(v@) =~= out@.map_values(|l: String| l@) + spec_split_lines(
            v@.subrange(0, n as int),
        ));
    }
    while i < n
        invariant
            start <= i <= n,
            n == v@.len(),
            spec_split_lines(v@) == out@.map_values(|l: String| l@) + spec_split_lines(
                v@.subrange(start as int, n as int),
            ),
            start < n || (start == n && i == n),
            forall|k: int| start <= k < i ==> v@[k] != '\n',
        decreases n - i,
    {
        if v[i] == '\n' {
            let ghost rest = v@.subrange(start as int, n as int);
            let mut line: Vec<char> = Vec::new();
            let mut j = start;
            let line_end = if i > start && v[i - 1] == '\r' {
                i - 1
            } else {
                i
            };
            while j < line_end
                invariant
                    start <= j <= line_end <= v@.len(),
                    line@ == v@.subrange(start as int, j as int),
                decreases line_end - j,
            {
                line.push(v[j]);
                j = j + 1;
                proof {
                    assert(line@ =~= v@.subrange(start as int, j as int));
                }
            }
            let ls = chars_to_string(&line);
            out.push(ls);
            proof {
                lemma_first_newline_at(rest, i - start);
                assert(rest.subrange(0, i - start) =~= v@.subrange(start as int, i as int));
                assert(spec_strip_cr(v@.subrange(start as int, i as int)) =~= v@.subrange(
                    start as int,
                    line_end as int,
                ));
                assert(rest.subrange(i - start + 1, rest.len() as int) =~= v@.subrange(
                    i + 1,
                    n as int,
                ));
                assert(out@.map_values(|l: String| l@) =~= out@.map_values(
                    |l: String| l@,
                ).drop_last() + seq![v@.subrange(start as int, line_end as int)]);
                assert(spec_split_lines(v@) =~= out@.map_values(|l: String| l@)
                    + spec_split_lines(v@.subrange(i + 1, n as int)));
            }
            i = i + 1;
            start = i;
        } else {
            i = i + 1;
        }
    }
    if start < n {
        let ghost rest = v@.subrange(start as int, n as int);
        let mut line: Vec<char> = Vec::new();
        let line_end = if n > start && v[n - 1] == '\r' {
            n - 1
        } else {
            n
        };
        let mut j = start;
        while j < line_end
            invariant
                start <= j <= line_end <= v@.len(),
                line@ == v@.subrange(start as int, j as int),
            decreases line_end - j,
        {
            line.push(v[j]);
            j = j + 1;
            proof {
                assert(line@ =~= v@.subrange(start as int, j as int));
            }
        }
        let ls = chars_to_string(&line);
        out.push(ls);
        proof {
            lemma_no_newline(rest);
            assert(spec_strip_cr(rest) =~= v@.subrange(start as int, line_end as int));
            assert(out@.map_values(|l: String| l@) =~= out@.map_values(
                |l: String| l@,
            ).drop_last() + seq![v@.subrange(start as int, line_end as int)]);
            assert(spec_split_lines(v@) =~= out@.map_values(|l: String| l@));
        }
    } else {
        proof {
            assert(v@.subrange(start as int, n as int).len() == 0);
            assert(spec_split_lines(v@) =~= out@.map_values(|l: String| l@));
        }
    }
    out
}

/// A text whose first newline sits at `k` has `spec_first_newline` `k`.
proof fn lemma_first_newline_at(s: Seq<char>, k: int)
    requires
        0 <= k < s.len(),
        s[k] == '\n',
        forall|j: int| 0 <= j < k ==> s[j] != '\n',
    ensures
        spec_first_newline(s) == k,
    decreases k,
{
    if k > 0 {
        assert(s.drop_first()[k - 1] == '\n');
        assert forall|j: int| 0 <= j < k - 1 implies s.drop_first()[j] != '\n' by {
            assert(s.drop_first()[j] == s[j + 1]);
        }
        lemma_first_newline_at(s.drop_first(), k - 1);
    }
}

/// A text with no newline has `spec_first_newline` -1.
proof fn lemma_no_newline(s: Seq<char>)
    requires
        forall|j: int| 0 <= j < s.len() ==> s[j] != '\n',
    ensures
        spec_first_newline(s) < 0,
    decreases s.len(),
{
    if s.len() > 0 {
        assert forall|j: int| 0 <= j < s.drop_first().len() implies s.drop_first()[j] != '\n' by {
            assert(s.drop_first()[j] == s[j + 1]);
        }
        lemma_no_newline(s.drop_first());
    }
}

/// Renders a source text as an HTML listing with one anchored span per
/// line, so other pages can link to a specific line.
pub fn anchor_source(text: &str) -> (r: String)
    ensures
        r@ == spec_anchor_source(text@),
{
    proof {
        reveal_strlit(
            "<html><head><style>pre span { display: block; } pre span:target { background-color: #ffff00; }</style></head><body><pre>",
        );
        reveal_strlit("<span id=\"L");
        reveal_strlit("\">");
        reveal_strlit("</span>");
        reveal_strlit("</pre></body></html>");
    }
    let lines = split_lines(text);
    let ghost lv = lines@.map_values(|l: String| l@);
    let mut html = String::from_str(
        "<html><head><style>pre span { display: block; } pre span:target { background-color: #ffff00; }</style></head><body><pre>",
    );
    let mut i: usize = 0;
    proof {
        assert(lv.subrange(0, 0) =~= Seq::<Seq<char>>::empty());
    }
    while i < lines.len()
        invariant
            i <= lines@.len(),
            lv == lines@.map_values(|l: String| l@),
            html@ == spec_anchor_head() + spec_anchor_lines(lv.subrange(0, i as int)),
        decreases lines@.len() - i,
    {
        html.append("<span id=\"L");
        let num = u64_to_string((i as u64) + 1);
        html.append(num.as_str());
        html.append("\">");
        let esc = escape_text(lines[i].as_str());
        html.append(esc.as_str());
        html.append("</span>");
        i = i + 1;
        proof {
            assert(lv.subrange(0, i as int).drop_last() =~= lv.subrange(0, i - 1));
            assert(lv.subrange(0, i as int).last() == lv[i - 1]);
            assert(lv[i - 1] == lines@[i - 1]@);
            assert(html@ =~= spec_anchor_head() + spec_anchor_lines(lv.subrange(0, i as int)));
        }
    }
    html.append("</pre></body></html>");
    proof {
        assert(lv.subrange(0, lv.len() as int) =~= lv);
        assert(html@ =~= spec_anchor_source(text@));
    }
    html
}

/// The HTML line of one guard's code text.
pub open spec fn spec_guard_item_html(code: Seq<char>) -> Seq<char> {
    "<li><code>"@ + spec_escape(code) + "</code></li>\n"@
}

/// The guard list items: one per array element carrying a string "code"
/// field; other elements render nothing.
pub open spec fn spec_guard_items_html(xs: Seq<crate::json::Jv>) -> Seq<char>
    decreases xs.len(),
{
    if xs.len() == 0 {
        Seq::empty()
    } else {
        spec_guard_items_html(xs.drop_last()) + (match crate::json::jv_get(xs.last(), "code"@) {
            Some(crate::json::Jv::Str(code)) => spec_guard_item_html(code),
            _ => Seq::empty(),
        })
    }
}

/// The whole guards page for a parsed guards payload.
pub open spec fn spec_guards_html(m: crate::json::Jv) -> Seq<char> {
    "<html><body><h1>Guards</h1><ul>\n"@ + (match m {
        crate::json::Jv::Arr(xs) => spec_guard_items_html(xs),
        _ => Seq::empty(),
    }) + "</ul></body></html>\n"@
}

/// Parser for dynamo_guards records: the payload must be a JSON array of
/// guard records; a payload that does not parse as an array is this
/// parser's failure (counted under its own counter by the dispatcher).
pub struct DynamoGuardsParser;

impl DynamoGuardsParser {
    pub fn run(
        &self,
        lineno: usize,
        compile_id: &Option<CompileId>,
        payload: &str,
    ) -> (r: Result<ParserResults, ParserError>)
        ensures
            (r is Ok) == (crate::json::text_model(payload@) matches Some(m) && m is Arr),
            r matches Ok(l) ==> l@.len() == 1 && (l@[0] matches ParserOutput::File(p, c) && p@
                == spec_file_path("dynamo_guards.html"@, lineno as nat, *compile_id) && c@
                == spec_guards_html(crate::json::text_model(payload@)->Some_0)),
    {
        proof {
            reveal_strlit("<html><body><h1>Guards</h1><ul>\n");
            reveal_strlit("</ul></body></html>\n");
            reveal_strlit("<li><code>");
            reveal_strlit("</code></li>\n");
            reveal_strlit("dynamo_guards.html");
        }
        let parsed = match crate::json::json_parse(payload) {
            Some(v) => v,
            None => {
                return Err(ParserError { parser: String::from_str("dynamo_guards") });
            },
        };
        let n = match crate::json::value_array_len(&parsed) {
            Some(n) => n,
            None => {
                return Err(ParserError { parser: String::from_str("dynamo_guards") });
            },
        };
        let ghost m = crate::json::jmodel(parsed);
        let mut html = String::from_str("<html><body><h1>Guards</h1><ul>\n");
        let mut i: usize = 0;
        proof {
            assert(m->Arr_0.subrange(0, 0) =~= Seq::<crate::json::Jv>::empty());
        }
        while i < n
            invariant
                i <= n,
                m == crate::json::jmodel(parsed),
                m matches crate::json::Jv::Arr(xs) && xs.len() == n,
                html@ == "<html><body><h1>Guards</h1><ul>\n"@ + spec_guard_items_html(
                    m->Arr_0.subrange(0, i as int),
                ),
            decreases n - i,
        {
            let elem = match crate::json::value_array_get(&parsed, i) {
                Some(x) => x,
                None => {
                    proof {
                        assert(false);
                    }
                    return Err(ParserError { parser: String::from_str("dynamo_guards") });
                },
            };
            match crate::json::value_get(elem, "code") {
                Some(cv) => match crate::json::value_as_str(cv) {
                    Some(code) => {
                        html.append("<li><code>");
                        let ec = escape_text(code);
                        html.append(ec.as_str());
                        html.append("</code></li>\n");
                    },
                    None => {},
                },
                None => {},
            }
            i = i + 1;
            proof {
                assert(m->Arr_0.subrange(0, i as int).drop_last() =~= m->Arr_0.subrange(0, i - 1));
                assert(m->Arr_0.subrange(0, i as int).last() == m->Arr_0[i - 1]);
                assert(html@ =~= "<html><body><h1>Guards</h1><ul>\n"@ + spec_guard_items_html(
                    m->Arr_0.subrange(0, i as int),
                ));
            }
        }
        html.append("</ul></body></html>\n");
        proof {
            assert(m->Arr_0.subrange(0, n as int) =~= m->Arr_0);
            assert(html@ =~= spec_guards_html(m));
        }
        simple_file_output("dynamo_guards.html", lineno, compile_id, html.as_str())
    }
}

/// The mathematical view of one parser output.
pub enum OutputView {
    FileV(Seq<char>, Seq<char>),
    GlobalFileV(Seq<char>, Seq<char>),
    PayloadFileV(Seq<char>),
    PayloadReformatFileV(Seq<char>, ReformatKind),
    LinkV(Seq<char>, Seq<char>),
}

/// The view of a parser output.
pub open spec fn view_output(o: ParserOutput) -> OutputView {
    match o {
        ParserOutput::File(p, c) => OutputView::FileV(p@, c@),
        ParserOutput::GlobalFile(p, c) => OutputView::GlobalFileV(p@, c@),
        ParserOutput::PayloadFile(p) => OutputView::PayloadFileV(p@),
        ParserOutput::PayloadReformatFile(p, k) => OutputView::PayloadReformatFileV(p@, k),
        ParserOutput::Link(n, u) => OutputView::LinkV(n@, u@),
    }
}

/// One registered parser of the default registry.
pub enum LogParser {
    Sentinel(SentinelFileParser),
    GraphDump(GraphDumpParser),
    DynamoOutputGraph(DynamoOutputGraphParser),
    DynamoGuards(DynamoGuardsParser),
    InductorOutputCode(InductorOutputCodeParser),
    OptimizeDdpSplitChild(OptimizeDdpSplitChildParser),
    AotAutogradBackwardCompilationMetrics(AotAutogradBackwardCompilationMetricsParser),
    BwdCompilationMetrics(BwdCompilationMetricsParser),
    Link(LinkParser),
    Artifact(ArtifactParser),
    DumpFile(DumpFileParser),
}

/// Whether a registered parser's predicate matches the envelope.
pub open spec fn spec_parser_fires(p: LogParser, e: Envelope) -> bool {
    match p {
        LogParser::Sentinel(sp) => spec_sentinel_of(sp.field, e) is Some,
        LogParser::GraphDump(_) => e.graph_dump is Some,
        LogParser::DynamoOutputGraph(_) => e.dynamo_output_graph is Some,
        LogParser::DynamoGuards(_) => e.dynamo_guards is Some,
        LogParser::InductorOutputCode(_) => e.inductor_output_code is Some,
        LogParser::OptimizeDdpSplitChild(_) => e.optimize_ddp_split_child is Some,
        LogParser::AotAutogradBackwardCompilationMetrics(_) => (
        e.aot_autograd_backward_compilation_metrics is Some),
        LogParser::BwdCompilationMetrics(_) => e.bwd_compilation_metrics is Some,
        LogParser::Link(_) => e.link is Some,
        LogParser::Artifact(_) => e.artifact is Some,
        LogParser::DumpFile(_) => e.dump_file is Some,
    }
}

/// The single output a registered parser produces on a record it fires
/// on, as a view.
pub open spec fn spec_run_output(p: LogParser, e: Envelope, lineno: nat, payload: Seq<char>) -> OutputView
    recommends
        spec_parser_fires(p, e),
{
    match p {
        LogParser::Sentinel(sp) => OutputView::PayloadFileV(
            spec_file_path(sp.filename@ + ".txt"@, lineno, e.compile_id),
        ),
        LogParser::GraphDump(_) => OutputView::PayloadFileV(
            spec_file_path(e.graph_dump->Some_0.name@ + ".txt"@, lineno, e.compile_id),
        ),
        LogParser::DynamoOutputGraph(_) => OutputView::PayloadFileV(
            spec_file_path("dynamo_output_graph.txt"@, lineno, e.compile_id),
        ),
        LogParser::DynamoGuards(_) => OutputView::FileV(
            spec_file_path("dynamo_guards.html"@, lineno, e.compile_id),
            spec_guards_html(crate::json::text_model(payload)->Some_0),
        ),
        LogParser::InductorOutputCode(ic) => if ic.plain_text {
            OutputView::PayloadFileV(
                spec_file_path(
                    spec_code_filename(e.inductor_output_code->Some_0, true),
                    lineno,
                    e.compile_id,
                ),
            )
        } else {
            OutputView::FileV(
                spec_file_path(
                    spec_code_filename(e.inductor_output_code->Some_0, false),
                    lineno,
                    e.compile_id,
                ),
                py_html_of(payload)->Some_0,
            )
        },
        LogParser::OptimizeDdpSplitChild(_) => OutputView::PayloadFileV(
            spec_file_path(
                "optimize_ddp_split_child_"@ + e.optimize_ddp_split_child->Some_0.name@ + ".txt"@,
                lineno,
                e.compile_id,
            ),
        ),
        LogParser::AotAutogradBackwardCompilationMetrics(_) => OutputView::FileV(
            spec_file_path(
                "aot_autograd_backward_compilation_metrics.html"@,
                lineno,
                e.compile_id,
            ),
            spec_metrics_page("AOT Autograd backward compilation metrics"@, e.compile_id),
        ),
        LogParser::BwdCompilationMetrics(_) => OutputView::FileV(
            spec_file_path("bwd_compilation_metrics.html"@, lineno, e.compile_id),
            spec_metrics_page("Backward compilation metrics"@, e.compile_id),
        ),
        LogParser::Link(_) => OutputView::LinkV(e.link->Some_0.name@, e.link->Some_0.url@),
        LogParser::Artifact(_) => if e.artifact->Some_0.encoding@ == "string"@ {
            OutputView::PayloadFileV(
                spec_file_path(e.artifact->Some_0.name@ + ".txt"@, lineno, e.compile_id),
            )
        } else {
            OutputView::PayloadReformatFileV(
                spec_file_path(e.artifact->Some_0.name@ + ".json"@, lineno, e.compile_id),
                ReformatKind::JsonPretty,
            )
        },
        LogParser::DumpFile(_) => OutputView::GlobalFileV(
            "dump_file/"@ + spec_dump_filename(e.dump_file->Some_0.name@),
            spec_anchor_source(payload),
        ),
    }
}

/// Whether a firing parser succeeds on the record: every parser but
/// three is unconditional; the guards parser needs an array payload, the
/// artifact parser a supported encoding, and the HTML-rendering code
/// parser succeeds exactly where the highlighter does.
pub open spec fn spec_run_ok(p: LogParser, e: Envelope, payload: Seq<char>) -> bool
    recommends
        spec_parser_fires(p, e),
{
    match p {
        LogParser::DynamoGuards(_) => crate::json::text_model(payload) matches Some(m) && m is Arr,
        LogParser::InductorOutputCode(ic) => ic.plain_text || py_html_of(payload) is Some,
        LogParser::Artifact(_) => e.artifact->Some_0.encoding@ == "string"@
            || e.artifact->Some_0.encoding@ == "json"@,
        _ => true,
    }
}

impl LogParser {
    /// The predicate of the multi-dispatch: is this parser's designated
    /// optional field populated?
    pub fn fires(&self, e: &Envelope) -> (r: bool)
        ensures
            r == spec_parser_fires(*self, *e),
    {
        match self {
            LogParser::Sentinel(sp) => sp.fires(e),
            LogParser::GraphDump(_) => e.graph_dump.is_some(),
            LogParser::DynamoOutputGraph(_) => e.dynamo_output_graph.is_some(),
            LogParser::DynamoGuards(_) => e.dynamo_guards.is_some(),
            LogParser::InductorOutputCode(_) => e.inductor_output_code.is_some(),
            LogParser::OptimizeDdpSplitChild(_) => e.optimize_ddp_split_child.is_some(),
            LogParser::AotAutogradBackwardCompilationMetrics(_) => (
            e.aot_autograd_backward_compilation_metrics.is_some()),
            LogParser::BwdCompilationMetrics(_) => e.bwd_compilation_metrics.is_some(),
            LogParser::Link(_) => e.link.is_some(),
            LogParser::Artifact(_) => e.artifact.is_some(),
            LogParser::DumpFile(_) => e.dump_file.is_some(),
        }
    }

    /// Runs the parser's handler on one accepted record: exactly one
    /// typed output, determined by the parser, the record and the
    /// payload; a failure is reported for the dispatcher to count.
    pub fn run_on(&self, lineno: usize, e: &Envelope, payload: &str) -> (r: Result<
        ParserResults,
        ParserError,
    >)
        requires
            spec_parser_fires(*self, *e),
        ensures
            (r is Ok) == spec_run_ok(*self, *e, payload@),
            r matches Ok(l) ==> l@.len() == 1 && view_output(l@[0]) == spec_run_output(
                *self,
                *e,
                lineno as nat,
                payload@,
            ),
    {
        match self {
            LogParser::Sentinel(sp) => sp.run(lineno, &e.compile_id),
            LogParser::GraphDump(p) => match &e.graph_dump {
                Some(m) => p.run(m, lineno, &e.compile_id),
                None => Err(ParserError { parser: String::from_str("graph_dump") }),
            },
            LogParser::DynamoOutputGraph(p) => p.run(lineno, &e.compile_id),
            LogParser::DynamoGuards(p) => p.run(lineno, &e.compile_id, payload),
            LogParser::InductorOutputCode(p) => match &e.inductor_output_code {
                Some(m) => p.run(m, lineno, &e.compile_id, payload),
                None => Err(ParserError { parser: String::from_str("inductor_output_code") }),
            },
            LogParser::OptimizeDdpSplitChild(p) => match &e.optimize_ddp_split_child {
                Some(m) => p.run(m, lineno, &e.compile_id),
                None => Err(ParserError { parser: String::from_str("optimize_ddp_split_child") }),
            },
            LogParser::AotAutogradBackwardCompilationMetrics(p) => p.run(lineno, &e.compile_id),
            LogParser::BwdCompilationMetrics(p) => p.run(lineno, &e.compile_id),
            LogParser::Link(p) => match &e.link {
                Some(m) => p.run(m),
                None => Err(ParserError { parser: String::from_str("link_parser") }),
            },
            LogParser::Artifact(p) => match &e.artifact {
                Some(m) => p.run(m, lineno, &e.compile_id),
                None => Err(ParserError { parser: String::from_str("artifact") }),
            },
            LogParser::DumpFile(p) => match &e.dump_file {
                Some(m) => p.run(m, payload),
                None => Err(ParserError { parser: String::from_str("dump_file") }),
            },
        }
    }

    /// The parser's name, for error logging.
    pub fn parser_name(&self) -> (r: &'static str)
        ensures
            r@ == spec_parser_name(*self),
    {
        match self {
            LogParser::Sentinel(sp) => sp.filename,
            LogParser::GraphDump(_) => "graph_dump",
            LogParser::DynamoOutputGraph(_) => "dynamo_output_graph",
            LogParser::DynamoGuards(_) => "dynamo_guards",
            LogParser::InductorOutputCode(_) => "inductor_output_code",
            LogParser::OptimizeDdpSplitChild(_) => "optimize_ddp_split_child",
            LogParser::AotAutogradBackwardCompilationMetrics(_) => (
            "aot_autograd_backward_compilation_metrics"),
            LogParser::BwdCompilationMetrics(_) => "bwd_compilation_metrics",
            LogParser::Link(_) => "link_parser",
            LogParser::Artifact(_) => "artifact",
            LogParser::DumpFile(_) => "dump_file",
        }
    }
}

/// The registered parser's name, for error accounting.
pub open spec fn spec_parser_name(p: LogParser) -> Seq<char> {
    match p {
        LogParser::Sentinel(sp) => sp.filename@,
        LogParser::GraphDump(_) => "graph_dump"@,
        LogParser::DynamoOutputGraph(_) => "dynamo_output_graph"@,
        LogParser::DynamoGuards(_) => "dynamo_guards"@,
        LogParser::InductorOutputCode(_) => "inductor_output_code"@,
        LogParser::OptimizeDdpSplitChild(_) => "optimize_ddp_split_child"@,
        LogParser::AotAutogradBackwardCompilationMetrics(
            _,
        ) => "aot_autograd_backward_compilation_metrics"@,
        LogParser::BwdCompilationMetrics(_) => "bwd_compilation_metrics"@,
        LogParser::Link(_) => "link_parser"@,
        LogParser::Artifact(_) => "artifact"@,
        LogParser::DumpFile(_) => "dump_file"@,
    }
}

/// The default registry: in export mode only the exported-program
/// sentinel; otherwise the full catalog of data parsers.
pub fn default_parsers(parser_config: &ParseConfig) -> (r: Vec<LogParser>)
    ensures
        parser_config.export ==> r@.len() == 1,
        !parser_config.export ==> r@.len() == 19,
{
    let mut r: Vec<LogParser> = Vec::new();
    if parser_config.export {
        r.push(
            LogParser::Sentinel(
                SentinelFileParser::new("exported_program", SentinelField::ExportedProgram),
            ),
        );
        return r;
    }
    r.push(
        LogParser::Sentinel(
            SentinelFileParser::new(
                "optimize_ddp_split_graph",
                SentinelField::OptimizeDdpSplitGraph,
            ),
        ),
    );
    r.push(
        LogParser::Sentinel(
            SentinelFileParser::new("compiled_autograd_graph", SentinelField::CompiledAutogradGraph),
        ),
    );
    r.push(
        LogParser::Sentinel(
            SentinelFileParser::new("aot_forward_graph", SentinelField::AotForwardGraph),
        ),
    );
    r.push(
        LogParser::Sentinel(
            SentinelFileParser::new("aot_backward_graph", SentinelField::AotBackwardGraph),
        ),
    );
    r.push(
        LogParser::Sentinel(
            SentinelFileParser::new("aot_inference_graph", SentinelField::AotInferenceGraph),
        ),
    );
    r.push(
        LogParser::Sentinel(
            SentinelFileParser::new("aot_joint_graph", SentinelField::AotJointGraph),
        ),
    );
    r.push(
        LogParser::Sentinel(
            SentinelFileParser::new("inductor_post_grad_graph", SentinelField::InductorPostGradGraph),
        ),
    );
    r.push(
        LogParser::Sentinel(
            SentinelFileParser::new("inductor_pre_grad_graph", SentinelField::InductorPreGradGraph),
        ),
    );
    r.push(
        LogParser::Sentinel(
            SentinelFileParser::new("dynamo_cpp_guards_str", SentinelField::DynamoCppGuardsStr),
        ),
    );
    r.push(LogParser::GraphDump(GraphDumpParser));
    r.push(LogParser::DynamoOutputGraph(DynamoOutputGraphParser));
    r.push(LogParser::DynamoGuards(DynamoGuardsParser));
    r.push(LogParser::InductorOutputCode(InductorOutputCodeParser::new(parser_config)));
    r.push(LogParser::OptimizeDdpSplitChild(OptimizeDdpSplitChildParser));
    r.push(
        LogParser::AotAutogradBackwardCompilationMetrics(
            AotAutogradBackwardCompilationMetricsParser,
        ),
    );
    r.push(LogParser::BwdCompilationMetrics(BwdCompilationMetricsParser));
    r.push(LogParser::Link(LinkParser));
    r.push(LogParser::Artifact(ArtifactParser));
    r.push(LogParser::DumpFile(DumpFileParser));
    r
}

impl StructuredLogParser for SentinelFileParser {
    fn get_metadata<'e>(&self, e: &'e Envelope) -> Option<Metadata<'e>> {
        let m = match self.field {
            SentinelField::OptimizeDdpSplitGraph => &e.optimize_ddp_split_graph,
            SentinelField::CompiledAutogradGraph => &e.compiled_autograd_graph,
            SentinelField::AotForwardGraph => &e.aot_forward_graph,
            SentinelField::AotBackwardGraph => &e.aot_backward_graph,
            SentinelField::AotInferenceGraph => &e.aot_inference_graph,
            SentinelField::AotJointGraph => &e.aot_joint_graph,
            SentinelField::InductorPostGradGraph => &e.inductor_post_grad_graph,
            SentinelField::InductorPreGradGraph => &e.inductor_pre_grad_graph,
            SentinelField::DynamoCppGuardsStr => &e.dynamo_cpp_guards_str,
            SentinelField::ExportedProgram => &e.exported_program,
        };
        match m {
            Some(mm) => Some(Metadata::Empty(mm)),
            None => None,
        }
    }

    fn parse<'e>(
        &self,
        lineno: usize,
        _metadata: Metadata<'e>,
        _rank: Option<u32>,
        compile_id: &Option<CompileId>,
        _payload: &str,
    ) -> Result<ParserResults, ParserError> {
        self.run(lineno, compile_id)
    }

    fn name(&self) -> &'static str {
        self.filename
    }
}

impl StructuredLogParser for GraphDumpParser {
    fn get_metadata<'e>(&self, e: &'e Envelope) -> Option<Metadata<'e>> {
        match &e.graph_dump {
            Some(m) => Some(Metadata::GraphDump(m)),
            None => None,
        }
    }

    fn parse<'e>(
        &self,
        lineno: usize,
        metadata: Metadata<'e>,
        _rank: Option<u32>,
        compile_id: &Option<CompileId>,
        _payload: &str,
    ) -> Result<ParserResults, ParserError> {
        match metadata {
            Metadata::GraphDump(m) => self.run(m, lineno, compile_id),
            _ => Err(ParserError { parser: String::from_str("graph_dump") }),
        }
    }

    fn name(&self) -> &'static str {
        "graph_dump"
    }
}

impl StructuredLogParser for DynamoOutputGraphParser {
    fn get_metadata<'e>(&self, e: &'e Envelope) -> Option<Metadata<'e>> {
        match &e.dynamo_output_graph {
            Some(m) => Some(Metadata::Empty(m)),
            None => None,
        }
    }

    fn parse<'e>(
        &self,
        lineno: usize,
        _metadata: Metadata<'e>,
        _rank: Option<u32>,
        compile_id: &Option<CompileId>,
        _payload: &str,
    ) -> Result<ParserResults, ParserError> {
        self.run(lineno, compile_id)
    }

    fn name(&self) -> &'static str {
        "dynamo_output_graph"
    }
}

impl StructuredLogParser for InductorOutputCodeParser {
    fn get_metadata<'e>(&self, e: &'e Envelope) -> Option<Metadata<'e>> {
        match &e.inductor_output_code {
            Some(m) => Some(Metadata::InductorOutputCode(m)),
            None => None,
        }
    }

    fn parse<'e>(
        &self,
        lineno: usize,
        metadata: Metadata<'e>,
        _rank: Option<u32>,
        compile_id: &Option<CompileId>,
        payload: &str,
    ) -> Result<ParserResults, ParserError> {
        match metadata {
            Metadata::InductorOutputCode(m) => self.run(m, lineno, compile_id, payload),
            _ => Err(ParserError { parser: String::from_str("inductor_output_code") }),
        }
    }

    fn name(&self) -> &'static str {
        "inductor_output_code"
    }
}

impl StructuredLogParser for OptimizeDdpSplitChildParser {
    fn get_metadata<'e>(&self, e: &'e Envelope) -> Option<Metadata<'e>> {
        match &e.optimize_ddp_split_child {
            Some(m) => Some(Metadata::OptimizeDdpSplitChild(m)),
            None => None,
        }
    }

    fn parse<'e>(
        &self,
        lineno: usize,
        metadata: Metadata<'e>,
        _rank: Option<u32>,
        compile_id: &Option<CompileId>,
        _payload: &str,
    ) -> Result<ParserResults, ParserError> {
        match metadata {
            Metadata::OptimizeDdpSplitChild(m) => self.run(m, lineno, compile_id),
            _ => Err(ParserError { parser: String::from_str("optimize_ddp_split_child") }),
        }
    }

    fn name(&self) -> &'static str {
        "optimize_ddp_split_child"
    }
}

impl StructuredLogParser for AotAutogradBackwardCompilationMetricsParser {
    fn get_metadata<'e>(&self, e: &'e Envelope) -> Option<Metadata<'e>> {
        match &e.aot_autograd_backward_compilation_metrics {
            Some(m) => Some(Metadata::Empty(m)),
            None => None,
        }
    }

    fn parse<'e>(
        &self,
        lineno: usize,
        _metadata: Metadata<'e>,
        _rank: Option<u32>,
        compile_id: &Option<CompileId>,
        _payload: &str,
    ) -> Result<ParserResults, ParserError> {
        self.run(lineno, compile_id)
    }

    fn name(&self) -> &'static str {
        "aot_autograd_backward_compilation_metrics"
    }
}

impl StructuredLogParser for BwdCompilationMetricsParser {
    fn get_metadata<'e>(&self, e: &'e Envelope) -> Option<Metadata<'e>> {
        match &e.bwd_compilation_metrics {
            Some(m) => Some(Metadata::Empty(m)),
            None => None,
        }
    }

    fn parse<'e>(
        &self,
        lineno: usize,
        _metadata: Metadata<'e>,
        _rank: Option<u32>,
        compile_id: &Option<CompileId>,
        _payload: &str,
    ) -> Result<ParserResults, ParserError> {
        self.run(lineno, compile_id)
    }

    fn name(&self) -> &'static str {
        "bwd_compilation_metrics"
    }
}

impl StructuredLogParser for LinkParser {
    fn get_metadata<'e>(&self, e: &'e Envelope) -> Option<Metadata<'e>> {
        match &e.link {
            Some(m) => Some(Metadata::Link(m)),
            None => None,
        }
    }

    fn parse<'e>(
        &self,
        _lineno: usize,
        metadata: Metadata<'e>,
        _rank: Option<u32>,
        _compile_id: &Option<CompileId>,
        _payload: &str,
    ) -> Result<ParserResults, ParserError> {
        match metadata {
            Metadata::Link(m) => self.run(m),
            _ => Err(ParserError { parser: String::from_str("link_parser") }),
        }
    }

    fn name(&self) -> &'static str {
        "link_parser"
    }
}

impl StructuredLogParser for ArtifactParser {
    fn get_metadata<'e>(&self, e: &'e Envelope) -> Option<Metadata<'e>> {
        match &e.artifact {
            Some(m) => Some(Metadata::Artifact(m)),
            None => None,
        }
    }

    fn parse<'e>(
        &self,
        lineno: usize,
        metadata: Metadata<'e>,
        _rank: Option<u32>,
        compile_id: &Option<CompileId>,
        _payload: &str,
    ) -> Result<ParserResults, ParserError> {
        match metadata {
            Metadata::Artifact(m) => self.run(m, lineno, compile_id),
            _ => Err(ParserError { parser: String::from_str("artifact") }),
        }
    }

    fn name(&self) -> &'static str {
        "artifact"
    }
}

impl StructuredLogParser for DumpFileParser {
    fn get_metadata<'e>(&self, e: &'e Envelope) -> Option<Metadata<'e>> {
        match &e.dump_file {
            Some(m) => Some(Metadata::DumpFile(m)),
            None => None,
        }
    }

    fn parse<'e>(
        &self,
        _lineno: usize,
        metadata: Metadata<'e>,
        _rank: Option<u32>,
        _compile_id: &Option<CompileId>,
        payload: &str,
    ) -> Result<ParserResults, ParserError> {
        match metadata {
            Metadata::DumpFile(m) => self.run(m, payload),
            _ => Err(ParserError { parser: String::from_str("dump_file") }),
        }
    }

    fn name(&self) -> &'static str {
        "dump_file"
    }
}

} // verus!
