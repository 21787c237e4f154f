use tlparse::analysis::analyze_graph_runtime_deltas;
use tlparse::analysis::GraphRuntime;
use tlparse::analysis::OpRuntime;
use tlparse::divergence::group_by_signature;
use tlparse::divergence::is_divergent;
use tlparse::multirank::build_runtime_trace_events;
use tlparse::multirank::collective_signature_pairs;
use tlparse::multirank::compile_id_divergence;
use tlparse::multirank::dur_us;
use tlparse::multirank::extract_rank_metadata;
use tlparse::multirank::CollectiveSchedule;
use tlparse::multirank::RankMetaData;
use tlparse::multirank::TensorMetaFingerprint;
use tlparse::multirank::canonical_fingerprint;
use tlparse::multirank::events_with_pid;
use tlparse::multirank::tensor_signature_pairs;

fn gr(rank: u32, graph: &str, ns: &[u64]) -> GraphRuntime {
    GraphRuntime {
        rank,
        graph: graph.to_string(),
        ops: ns
            .iter()
            .map(|n| OpRuntime { name: "op".to_string(), estimated_runtime_ns: *n })
            .collect(),
    }
}

#[test]
fn runtime_delta_for_one_graph() {
    let rt = vec![gr(0, "g0", &[60000, 40000]), gr(1, "g0", &[300000])];
    let ra = analyze_graph_runtime_deltas(&rt).unwrap();
    assert!(!ra.has_mismatched_graph_counts);
    assert_eq!(ra.graphs.len(), 1);
    let g = &ra.graphs[0];
    assert_eq!(g.graph_id, "g0");
    // 0.2 ms, carried as microseconds
    assert_eq!(g.delta_us, 200);
    assert_eq!(g.rank_details.len(), 2);
    assert_eq!(g.rank_details[0].rank, 0);
    assert_eq!(g.rank_details[0].runtime_us, 100);
    assert_eq!(g.rank_details[1].rank, 1);
    assert_eq!(g.rank_details[1].runtime_us, 300);
}

#[test]
fn mismatched_graph_counts_give_an_empty_flagged_result() {
    let rt = vec![
        gr(0, "a", &[1]),
        gr(0, "b", &[1]),
        gr(0, "c", &[1]),
        gr(1, "a", &[1]),
        gr(1, "b", &[1]),
    ];
    let ra = analyze_graph_runtime_deltas(&rt).unwrap();
    assert!(ra.has_mismatched_graph_counts);
    assert_eq!(ra.graphs.len(), 0);
    let empty = analyze_graph_runtime_deltas(&Vec::new()).unwrap();
    assert!(empty.has_mismatched_graph_counts);
}

#[test]
fn equal_totals_let_the_later_rank_win_both() {
    let rt = vec![gr(0, "g0", &[1000]), gr(1, "g0", &[1000])];
    let ra = analyze_graph_runtime_deltas(&rt).unwrap();
    let g = &ra.graphs[0];
    assert_eq!(g.delta_us, 0);
    assert_eq!(g.rank_details[0].rank, 1, "later rank wins fastest on a tie");
    assert_eq!(g.rank_details[1].rank, 1, "later rank wins slowest on a tie");
}

#[test]
fn analysis_results_come_sorted_by_graph_id() {
    let rt = vec![
        gr(0, "zz", &[10]),
        gr(0, "aa", &[20]),
        gr(1, "zz", &[10]),
        gr(1, "aa", &[20]),
    ];
    let ra = analyze_graph_runtime_deltas(&rt).unwrap();
    assert_eq!(ra.graphs.len(), 2);
    assert_eq!(ra.graphs[0].graph_id, "aa");
    assert_eq!(ra.graphs[1].graph_id, "zz");
}

#[test]
fn three_records_group_into_two_buckets() {
    let pairs = vec![
        (0u32, "a".to_string()),
        (1u32, "a".to_string()),
        (2u32, "b".to_string()),
    ];
    let groups = group_by_signature(&pairs);
    assert_eq!(groups.len(), 2);
    let ga = groups.iter().find(|g| g.sequence == "a").unwrap();
    let gb = groups.iter().find(|g| g.sequence == "b").unwrap();
    assert_eq!(ga.ranks, vec![0, 1]);
    assert_eq!(gb.ranks, vec![2]);
    assert!(is_divergent(&pairs));
    assert_eq!(ga.ranks_string(), "0, 1");
}

#[test]
fn identical_signatures_form_one_group_without_divergence() {
    let pairs = vec![
        (0u32, "a".to_string()),
        (1u32, "a".to_string()),
        (2u32, "a".to_string()),
    ];
    let groups = group_by_signature(&pairs);
    assert_eq!(groups.len(), 1);
    assert_eq!(groups[0].ranks, vec![0, 1, 2]);
    assert!(!is_divergent(&pairs));
}

#[test]
fn rank_metadata_distills_keys_and_cache_sequence() {
    let content = "{\"-_0_0_0\": {\"artifacts\": [\
        {\"url\": \"u1\", \"name\": \"n1\", \"number\": 9, \"suffix\": \"B\", \"readable_url\": null},\
        {\"url\": \"u2\", \"name\": \"n2\", \"number\": 2, \"suffix\": \"A\", \"readable_url\": null},\
        {\"url\": \"u3\", \"name\": \"n3\", \"number\": 5, \"suffix\": \"\", \"readable_url\": null}\
    ]}, \"unknown_7\": {\"artifacts\": []}}";
    let md = extract_rank_metadata(content, 3);
    assert_eq!(md.rank, 3);
    assert_eq!(md.compile_ids, vec!["-_0_0_0".to_string()]);
    assert_eq!(md.cache_sequence, "AB", "suffixes ordered by sequence number");
}

#[test]
fn compile_id_sets_compare_as_sets() {
    let a = RankMetaData {
        rank: 0,
        compile_ids: vec!["x".to_string(), "y".to_string()],
        cache_sequence: String::new(),
    };
    let b = RankMetaData {
        rank: 1,
        compile_ids: vec!["y".to_string(), "x".to_string()],
        cache_sequence: String::new(),
    };
    let c = RankMetaData {
        rank: 2,
        compile_ids: vec!["x".to_string()],
        cache_sequence: String::new(),
    };
    assert!(!compile_id_divergence(&vec![
        RankMetaData { rank: 0, compile_ids: a.compile_ids.clone(), cache_sequence: String::new() },
        b,
    ]));
    assert!(compile_id_divergence(&vec![a, c]));
}

#[test]
fn collective_signatures_join_ops_in_order() {
    let schedules = vec![
        CollectiveSchedule {
            rank: 0,
            graph: "g0".to_string(),
            ops: vec!["allreduce".to_string(), "broadcast".to_string()],
        },
        CollectiveSchedule {
            rank: 0,
            graph: "g1".to_string(),
            ops: vec!["gather".to_string()],
        },
        CollectiveSchedule { rank: 1, graph: "g0".to_string(), ops: vec!["allreduce".to_string()] },
    ];
    let pairs = collective_signature_pairs(&schedules, &vec![0, 1]);
    assert_eq!(pairs.len(), 2);
    assert_eq!(pairs[0].0, 0);
    assert_eq!(pairs[0].1, "allreduce,broadcast,gather");
    assert_eq!(pairs[1].0, 1);
    assert_eq!(pairs[1].1, "allreduce");
}

#[test]
fn trace_durations_use_microsecond_ceilings_with_a_floor() {
    assert_eq!(dur_us(0), 1);
    assert_eq!(dur_us(1), 1);
    assert_eq!(dur_us(1000), 1);
    assert_eq!(dur_us(1001), 2);
    assert_eq!(dur_us(1500), 2);
}

#[test]
fn tensor_signatures_come_per_rank_ordered_by_graph() {
    let tm = vec![
        TensorMetaFingerprint { rank: 1, graph: "g1".to_string(), fingerprint: "b".to_string() },
        TensorMetaFingerprint { rank: 0, graph: "g0".to_string(), fingerprint: "c".to_string() },
        TensorMetaFingerprint { rank: 1, graph: "g0".to_string(), fingerprint: "a".to_string() },
    ];
    let pairs = tensor_signature_pairs(&tm);
    assert_eq!(pairs.len(), 2);
    assert_eq!(pairs[0].0, 1, "first appearance first");
    assert_eq!(pairs[0].1, "a,b", "fingerprints ordered by graph");
    assert_eq!(pairs[1].0, 0);
    assert_eq!(pairs[1].1, "c");
}

#[test]
fn canonical_fingerprints_ignore_formatting() {
    let a = canonical_fingerprint("{ \"x\":  1 }").unwrap();
    let b = canonical_fingerprint("{\"x\":1}").unwrap();
    assert_eq!(a, b);
    assert!(canonical_fingerprint("not json").is_none());
}

#[test]
fn chromium_events_gain_their_rank_pid() {
    let evs = events_with_pid("[{\"name\": \"e\"}, 7]", 3).unwrap();
    assert_eq!(evs.len(), 2);
    assert_eq!(evs[0]["pid"], 3);
    assert_eq!(evs[1], 7);
    assert!(events_with_pid("{}", 3).is_none());
}

#[test]
fn trace_events_accumulate_offsets_per_graph() {
    let rt = vec![gr(0, "g0", &[1500, 2500])];
    let (events, metas) = build_runtime_trace_events(&rt);
    assert_eq!(events.len(), 2);
    assert_eq!(events[0].ts_us, 0);
    assert_eq!(events[0].dur_us, 2);
    assert_eq!(events[1].ts_us, 2);
    assert_eq!(events[1].dur_us, 3);
    assert_eq!(events[0].pid, 0);
    assert_eq!(events[0].tid, events[1].tid);
    assert!(metas.iter().any(|m| m.label == "Rank 0" && m.tid.is_none()));
    assert!(metas.iter().any(|m| m.label == "graph g0" && m.tid.is_some()));
}
