use tlparse::ParseConfig;
use tlparse::directory::CompileDirectory;
use tlparse::directory::add_unique_suffix;
use tlparse::directory::is_stack_traces_file;
use tlparse::envelope::CompileId;
use tlparse::ingest::check_payload_integrity;
use tlparse::ingest::gather_payload;
use tlparse::ingest::parse_glog_line;
use tlparse::intern::InternTable;
use tlparse::interp::parse_log;
use tlparse::interp::ParseError;
use tlparse::parsers::anchor_source;
use tlparse::parsers::format_json_pretty;
use tlparse::strutil::u64_to_string_pad;

fn glog_line(payload: &str) -> String {
    format!("I0806 13:51:47.408021 2130089 torch/test.py:100] {}", payload)
}

fn lines(v: &[String]) -> Vec<String> {
    v.to_vec()
}

#[test]
fn glog_grammar_accepts_a_conforming_line() {
    let l = glog_line("{}");
    let h = parse_glog_line(&l).expect("line should parse");
    assert_eq!(h.level, 'I');
    assert_eq!(h.month, 8);
    assert_eq!(h.day, 6);
    assert_eq!(h.hour, 13);
    assert_eq!(h.minute, 51);
    assert_eq!(h.second, 47);
    assert_eq!(h.micros, 408021);
    assert_eq!(h.thread, 2130089);
    assert_eq!(h.pathname, " torch/test.py");
    assert_eq!(h.source_line, 100);
    assert_eq!(h.payload, "{}");
}

#[test]
fn glog_grammar_rejects_malformed_lines() {
    assert!(parse_glog_line("not a log line").is_none());
    assert!(parse_glog_line("").is_none());
    assert!(parse_glog_line("X0806 13:51:47.408021 1 a.py:1] {}").is_none());
}

#[test]
fn grammar_failure_leaves_the_next_line_untouched() {
    let log = lines(&["garbage that matches nothing".to_string(), glog_line("{}")]);
    let r = parse_log(&log, &ParseConfig::default()).expect("pass should succeed");
    assert_eq!(r.stats.fail_glog, 1);
    assert_eq!(r.stats.ok, 1);
}

#[test]
fn empty_lines_count_as_grammar_failures() {
    let log = lines(&["".to_string(), glog_line("{}")]);
    let r = parse_log(&log, &ParseConfig::default()).expect("pass should succeed");
    assert_eq!(r.stats.fail_glog, 1);
    assert_eq!(r.stats.ok, 1);
}

#[test]
fn guards_records_render_and_count_their_failures() {
    let log = lines(&[
        glog_line(
            "{\"dynamo_guards\": {}, \"has_payload\": \"00000000000000000000000000000000\"}",
        ),
        "\t[{\"code\": \"x == 1\"}]".to_string(),
        glog_line(
            "{\"dynamo_guards\": {}, \"has_payload\": \"00000000000000000000000000000000\"}",
        ),
        "\tnot json".to_string(),
    ]);
    let r = parse_log(&log, &ParseConfig::default()).expect("pass should succeed");
    let page = r
        .output
        .iter()
        .find(|(p, _)| p.contains("dynamo_guards"))
        .expect("guards page should exist");
    assert!(page.1.contains("x == 1"));
    assert_eq!(r.stats.fail_dynamo_guards_json, 1);
}

#[test]
fn compilation_metrics_records_leave_a_metrics_page() {
    let log = lines(&[glog_line("{\"compilation_metrics\": {}, \"compile_id\": {\"frame_id\": 0, \"frame_compile_id\": 0}}")]);
    let r = parse_log(&log, &ParseConfig::default()).expect("pass should succeed");
    let page = r
        .output
        .iter()
        .find(|(p, _)| p.contains("compilation_metrics"))
        .expect("metrics page should exist");
    assert!(page.1.contains("<h1>Compilation metrics</h1>"));
    assert!(page.1.contains("Compile id: -_0_0_-"));
}

#[test]
fn backward_metrics_records_leave_their_pages() {
    let log = lines(&[
        glog_line("{\"aot_autograd_backward_compilation_metrics\": {}}"),
        glog_line("{\"bwd_compilation_metrics\": {}}"),
    ]);
    let r = parse_log(&log, &ParseConfig::default()).expect("pass should succeed");
    assert!(r
        .output
        .iter()
        .any(|(p, c)| p.contains("aot_autograd_backward_compilation_metrics")
            && c.contains("AOT Autograd backward compilation metrics")));
    assert!(r
        .output
        .iter()
        .any(|(p, c)| p.contains("bwd_compilation_metrics")
            && c.contains("Backward compilation metrics")));
    assert_eq!(r.stats.ok, 2);
}

#[test]
fn pretty_printing_preserves_the_document() {
    let pretty = format_json_pretty("{\"b\": 1, \"a\": [2, 3]}").unwrap();
    let reparsed: serde_json::Value = serde_json::from_str(&pretty).unwrap();
    let original: serde_json::Value = serde_json::from_str("{\"b\": 1, \"a\": [2, 3]}").unwrap();
    assert_eq!(reparsed, original);
}

#[test]
fn payload_integrity_holds_for_a_correct_digest() {
    // MD5("hello")
    assert!(check_payload_integrity(
        "5d41402abc4b2a76b9719d911017c592",
        "hello"
    ));
    assert!(!check_payload_integrity(
        "00000000000000000000000000000000",
        "hello"
    ));
    assert!(!check_payload_integrity("zz", "hello"));
}

#[test]
fn integrity_mismatch_counts_once_and_still_delivers_the_payload() {
    let log = lines(&[
        glog_line("{\"has_payload\": \"00000000000000000000000000000000\"}"),
        "\thello".to_string(),
    ]);
    let r = parse_log(&log, &ParseConfig::default()).expect("pass should succeed");
    assert_eq!(r.stats.fail_payload_md5, 1);
    let payloads: Vec<_> = r
        .output
        .iter()
        .filter(|(p, _)| p.starts_with("payloads/"))
        .collect();
    assert_eq!(payloads.len(), 1);
    assert_eq!(payloads[0].1, "hello");
}

#[test]
fn end_to_end_payload_artifact_with_clean_counter() {
    let log = lines(&[
        glog_line("{\"has_payload\": \"5d41402abc4b2a76b9719d911017c592\"}"),
        "\thello".to_string(),
        glog_line("{\"artifact\": {\"name\": \"x\"}}"),
    ]);
    let r = parse_log(&log, &ParseConfig::default()).expect("pass should succeed");
    assert_eq!(r.stats.fail_payload_md5, 0);
    let payloads: Vec<_> = r
        .output
        .iter()
        .filter(|(p, _)| p.starts_with("payloads/"))
        .collect();
    assert_eq!(payloads.len(), 1, "exactly one payload-derived artifact");
    // the record missing its expected key is dropped as a decode failure
    assert_eq!(r.stats.fail_json, 1);
}

#[test]
fn continuation_block_joins_without_trailing_newline() {
    let log = lines(&[
        "\tfirst".to_string(),
        "\tsecond".to_string(),
        "plain".to_string(),
    ]);
    let (block, next) = gather_payload(&log, 0);
    assert_eq!(block, "first\nsecond");
    assert_eq!(next, 2);
}

#[test]
fn continuation_stops_at_the_first_non_tab_line() {
    let log = lines(&["\ta".to_string(), "".to_string(), "\tb".to_string()]);
    let (block, next) = gather_payload(&log, 0);
    assert_eq!(block, "a", "a blank line ends the block");
    assert_eq!(next, 1);
}

#[test]
fn intern_round_trip_and_fallback() {
    let mut t = InternTable::new();
    t.insert(5, "foo".to_string());
    assert_eq!(t.resolve(5), "foo");
    assert_eq!(t.resolve(7), "(unknown)");
    let table = t.string_table();
    assert_eq!(table.len(), 6);
    assert_eq!(table[5].as_deref(), Some("foo"));
    assert!(table[0].is_none());
}

#[test]
fn intern_records_feed_the_string_table_line() {
    let log = lines(&[glog_line("{\"str\": [\"foo\", 5]}")]);
    let r = parse_log(&log, &ParseConfig::default()).expect("pass should succeed");
    assert_eq!(r.string_table.len(), 6);
    assert_eq!(r.string_table[5].as_deref(), Some("foo"));
    assert!(r.raw_jsonl.starts_with("{\"string_table\":"));
}

#[test]
fn equal_normalized_compile_ids_share_a_bucket() {
    let mut d = CompileDirectory::new();
    let mut c1 = CompileId {
        compiled_autograd_id: None,
        frame_id: Some(0),
        frame_compile_id: Some(0),
        attempt: None,
    };
    c1.normalize();
    let c2 = CompileId {
        compiled_autograd_id: None,
        frame_id: Some(0),
        frame_compile_id: Some(0),
        attempt: Some(0),
    };
    let i1 = d.bucket_index(&Some(c1));
    let i2 = d.bucket_index(&Some(c2));
    assert_eq!(i1, i2);
    assert_eq!(d.entries.len(), 1);
}

#[test]
fn records_with_and_without_attempt_aggregate_together() {
    let log = lines(&[
        glog_line("{\"compile_id\": {\"frame_id\": 0, \"frame_compile_id\": 0}}"),
        glog_line("{\"compile_id\": {\"frame_id\": 0, \"frame_compile_id\": 0, \"attempt\": 0}}"),
    ]);
    let r = parse_log(&log, &ParseConfig::default()).expect("pass should succeed");
    assert_eq!(r.directory.entries.len(), 1);
    assert!(!r.has_unknown_compile_id);
}

#[test]
fn rank_stickiness_skips_other_ranks() {
    let log = lines(&[
        glog_line("{\"rank\": 0}"),
        glog_line("{\"rank\": 1}"),
        glog_line("{\"rank\": 0}"),
    ]);
    let r = parse_log(&log, &ParseConfig::default()).expect("pass should succeed");
    assert_eq!(r.stats.ok, 2);
    assert_eq!(r.stats.other_rank, 1);
}

#[test]
fn strict_mode_turns_failures_into_a_hard_error() {
    let mut config = ParseConfig::default();
    config.strict = true;
    let log = lines(&["garbage".to_string()]);
    match parse_log(&log, &config) {
        Err(ParseError::Strict(s)) => assert_eq!(s.fail_glog, 1),
        _ => panic!("strict mode should fail the pass"),
    }
}

#[test]
fn strict_compile_id_flags_unknown_buckets() {
    let mut config = ParseConfig::default();
    config.strict_compile_id = true;
    let log = lines(&[glog_line("{\"dynamo_output_graph\": {}}")]);
    match parse_log(&log, &config) {
        Err(ParseError::UnknownCompileId) => {}
        _ => panic!("a record without a compile id should fail the pass"),
    }
}

#[test]
fn sentinel_parser_emits_the_payload_artifact() {
    let log = lines(&[
        glog_line(
            "{\"compile_id\": {\"frame_id\": 0, \"frame_compile_id\": 0, \"attempt\": 0}, \
             \"aot_forward_graph\": {}, \"has_payload\": \"5d41402abc4b2a76b9719d911017c592\"}",
        ),
        "\thello".to_string(),
    ]);
    let r = parse_log(&log, &ParseConfig::default()).expect("pass should succeed");
    let found = r
        .output
        .iter()
        .any(|(p, c)| p.starts_with("-_0_0_0/aot_forward_graph") && c == "hello");
    assert!(found, "aot_forward_graph artifact should carry the payload");
    assert_eq!(r.stats.fail_payload_md5, 0);
}

#[test]
fn unknown_fields_are_counted_and_kept() {
    let log = lines(&[glog_line("{\"totally_new_kind\": {}}")]);
    let r = parse_log(&log, &ParseConfig::default()).expect("pass should succeed");
    assert_eq!(r.stats.unknown, 1);
    assert_eq!(r.unknown_fields.len(), 1);
    assert_eq!(r.unknown_fields[0], "totally_new_kind");
}

#[test]
fn unique_suffix_lands_before_the_extension() {
    assert_eq!(add_unique_suffix("a/b.txt".to_string(), 3), "a/b_3.txt");
    assert_eq!(add_unique_suffix("a/b".to_string(), 7), "a/b_7");
    assert_eq!(add_unique_suffix("dir/".to_string(), 1), "dir/");
}

#[test]
fn stack_traces_files_are_recognized() {
    assert!(is_stack_traces_file(
        &"x/inductor_provenance_tracking_kernel_stack_traces_1.json".to_string()
    ));
    assert!(!is_stack_traces_file(&"x/other.json".to_string()));
}

#[test]
fn anchor_source_numbers_every_line() {
    let html = anchor_source("a\nb");
    assert!(html.contains("<span id=\"L1\">a</span>"));
    assert!(html.contains("<span id=\"L2\">b</span>"));
    let escaped = anchor_source("<x>");
    assert!(escaped.contains("&lt;x&gt;"));
}

#[test]
fn json_pretty_passes_invalid_payloads_through() {
    assert_eq!(format_json_pretty("not json").unwrap(), "not json");
    let pretty = format_json_pretty("{\"a\":1}").unwrap();
    assert!(pretty.contains("\"a\": 1"));
}

#[test]
fn zero_padding_matches_glog_timestamps() {
    assert_eq!(u64_to_string_pad(7, 2), "07");
    assert_eq!(u64_to_string_pad(2024, 4), "2024");
    assert_eq!(u64_to_string_pad(408021, 6), "408021");
    assert_eq!(u64_to_string_pad(12345, 2), "12345");
}
