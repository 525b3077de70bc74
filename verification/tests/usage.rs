use codex_monitor::calendar::{day_key_before, make_day_keys};
use codex_monitor::usage::{
    add_to_day, add_to_model, apply_record, build_snapshot, day_dir_for_key, day_totals,
    extract_model_from_token_count, extract_model_from_turn_context, find_usage_map, gain, plus,
    read_i64, read_record, resolve_codex_home, resolve_codex_sessions_root, resolve_home_dir,
    scan_lines, top_models, usage_window, DailyTotals, DayUsage, ModelUsage, ScanState,
    UsageRecord, UsageTotals, MAX_LINE_BYTES,
};
use serde_json::Value;

fn doc(text: &str) -> Value {
    serde_json::from_str(text).unwrap()
}

fn scan(lines: &[&str], day_key: &str) -> (Vec<DayUsage>, Vec<ModelUsage>) {
    let lines: Vec<String> = lines.iter().map(|l| l.to_string()).collect();
    let mut daily: Vec<DayUsage> = Vec::new();
    let mut model_totals: Vec<ModelUsage> = Vec::new();
    scan_lines(&lines, day_key, &mut daily, &mut model_totals);
    (daily, model_totals)
}

fn day(key: &str, input: i64, cached: i64, output: i64) -> DayUsage {
    DayUsage { day: key.to_string(), totals: DailyTotals { input, cached, output } }
}

fn model(name: &str, tokens: i64) -> ModelUsage {
    ModelUsage { model: name.to_string(), tokens }
}

#[test]
fn scan_file_does_not_double_count_last_and_total_usage() {
    let day_key = "2026-01-19";
    let (daily, _) = scan(
        &[
            r#"{"payload":{"type":"token_count","info":{"last_token_usage":{"input_tokens":10,"cached_input_tokens":0,"output_tokens":5}}}}"#,
            r#"{"payload":{"type":"token_count","info":{"total_token_usage":{"input_tokens":10,"cached_input_tokens":0,"output_tokens":5}}}}"#,
        ],
        day_key,
    );
    let totals = day_totals(&daily, day_key);
    assert_eq!(totals.input, 10);
    assert_eq!(totals.output, 5);
}

#[test]
fn scan_file_counts_last_deltas_before_total_snapshot_once() {
    let day_key = "2026-01-19";
    let (daily, _) = scan(
        &[
            r#"{"payload":{"type":"token_count","info":{"last_token_usage":{"input_tokens":10,"cached_input_tokens":0,"output_tokens":5}}}}"#,
            r#"{"payload":{"type":"token_count","info":{"total_token_usage":{"input_tokens":20,"cached_input_tokens":0,"output_tokens":10}}}}"#,
        ],
        day_key,
    );
    let totals = day_totals(&daily, day_key);
    assert_eq!(totals.input, 20);
    assert_eq!(totals.output, 10);
}

#[test]
fn scan_file_does_not_double_count_last_between_total_snapshots() {
    let day_key = "2026-01-19";
    let (daily, _) = scan(
        &[
            r#"{"payload":{"type":"token_count","info":{"total_token_usage":{"input_tokens":10,"cached_input_tokens":0,"output_tokens":5}}}}"#,
            r#"{"payload":{"type":"token_count","info":{"last_token_usage":{"input_tokens":2,"cached_input_tokens":0,"output_tokens":1}}}}"#,
            r#"{"payload":{"type":"token_count","info":{"total_token_usage":{"input_tokens":12,"cached_input_tokens":0,"output_tokens":6}}}}"#,
        ],
        day_key,
    );
    let totals = day_totals(&daily, day_key);
    assert_eq!(totals.input, 12);
    assert_eq!(totals.output, 6);
}

#[test]
fn scan_credits_the_model_of_the_turn_context() {
    let (daily, models) = scan(
        &[
            r#"{"type":"turn_context","payload":{"model":"gpt-a"}}"#,
            r#"{"payload":{"type":"token_count","info":{"model":"gpt-b","last_token_usage":{"inputTokens":7,"cachedInputTokens":9,"outputTokens":3}}}}"#,
            "not json at all \"token_count\"",
            r#"{"payload":{"type":"other","info":{"last_token_usage":{"input_tokens":100}}},"x":"token_count"}"#,
            r#"{"payload":{"type":"token_count","info":{"last_token_usage":{"input_tokens":0}}}}"#,
        ],
        "2026-02-01",
    );
    assert_eq!(daily.len(), 1);
    assert_eq!(daily[0].day, "2026-02-01");
    assert_eq!(daily[0].totals, DailyTotals { input: 7, cached: 7, output: 3 });
    assert_eq!(models.len(), 1);
    assert_eq!(models[0].model, "gpt-a");
    assert_eq!(models[0].tokens, 10);
}

#[test]
fn scan_falls_back_to_the_model_of_the_line_or_unknown() {
    let (_, models) = scan(
        &[
            r#"{"payload":{"type":"token_count","info":{"model_name":"m1","last_token_usage":{"input_tokens":1}}}}"#,
            r#"{"payload":{"type":"token_count","model":"m2","info":{"last_token_usage":{"input_tokens":2}}}}"#,
            r#"{"model":"m3","payload":{"type":"token_count","info":{"last_token_usage":{"input_tokens":3}}}}"#,
            r#"{"payload":{"type":"token_count","info":{"last_token_usage":{"input_tokens":4}}}}"#,
            r#"{"payload":{"type":"token_count","info":{"model":5,"model_name":"skipped","last_token_usage":{"input_tokens":5}}}}"#,
        ],
        "d",
    );
    let got: Vec<(String, i64)> = models.iter().map(|m| (m.model.clone(), m.tokens)).collect();
    assert_eq!(
        got,
        vec![
            ("m1".to_string(), 1),
            ("m2".to_string(), 2),
            ("m3".to_string(), 3),
            ("unknown".to_string(), 9),
        ]
    );
}

#[test]
fn records_are_read_from_lines() {
    assert!(matches!(read_record(""), UsageRecord::Nothing));
    assert!(matches!(read_record("{\"a\":1}"), UsageRecord::Nothing));
    match read_record(r#"{"type":"turn_context","payload":{"info":{"model":"inner"}}}"#) {
        UsageRecord::Model(m) => assert_eq!(m, "inner"),
        _ => panic!("a turn context names the model"),
    }
    assert!(matches!(
        read_record(r#"{"type":"turn_context","payload":{}}"#),
        UsageRecord::Nothing
    ));
    match read_record(
        r#"{"payload":{"type":"token_count","info":{"totalTokenUsage":{"input_tokens":4.9,"cache_read_input_tokens":"x","outputTokens":-2}}}}"#,
    ) {
        UsageRecord::Tokens { input, cached, output, from_total, model } => {
            assert_eq!((input, cached, output), (4, 0, -2));
            assert!(from_total);
            assert!(model.is_none());
        }
        _ => panic!("a count of tokens is read"),
    }
    let long = format!(
        r#"{{"payload":{{"type":"token_count","info":{{"last_token_usage":{{"input_tokens":1}}}}}},"pad":"{}"}}"#,
        "x".repeat(MAX_LINE_BYTES)
    );
    assert!(matches!(read_record(&long), UsageRecord::Nothing));
    assert_eq!(MAX_LINE_BYTES, 512_000);
}

#[test]
fn usage_maps_and_numbers_are_found_under_either_spelling() {
    let info = doc(r#"{"total_token_usage":3,"totalTokenUsage":{"inputTokens":5,"input_tokens":"n/a"}}"#);
    let keys = vec!["total_token_usage", "totalTokenUsage"];
    let map = find_usage_map(&info, &keys).unwrap();
    assert_eq!(*map, doc(r#"{"inputTokens":5,"input_tokens":"n/a"}"#));
    assert_eq!(read_i64(map, &vec!["input_tokens", "inputTokens"]), 0);
    assert_eq!(read_i64(map, &vec!["inputTokens", "input_tokens"]), 5);
    assert_eq!(read_i64(map, &vec!["missing"]), 0);
    assert!(find_usage_map(&info, &vec!["nope"]).is_none());
    assert_eq!(read_i64(&doc(r#"{"n":18446744073709551615}"#), &vec!["n"]), i64::MAX);
    assert_eq!(read_i64(&doc(r#"{"n":-3.99}"#), &vec!["n"]), -3);
}

#[test]
fn models_are_extracted_in_the_documented_order() {
    assert_eq!(
        extract_model_from_turn_context(&doc(r#"{"payload":{"model":"a","info":{"model":"b"}}}"#)),
        Some("a".to_string())
    );
    assert_eq!(extract_model_from_turn_context(&doc(r#"{"payload":"text"}"#)), None);
    assert_eq!(extract_model_from_turn_context(&doc(r#"{"model":"top"}"#)), None);
    assert_eq!(
        extract_model_from_token_count(&doc(r#"{"model":"top","payload":{"info":{}}}"#)),
        Some("top".to_string())
    );
    assert_eq!(extract_model_from_token_count(&doc(r#"{"model":"top","payload":[1]}"#)), None);
    assert_eq!(extract_model_from_token_count(&doc(r#"{"model":"top"}"#)), None);
}

#[test]
fn totals_then_steps_are_counted_once() {
    let mut state = ScanState { previous: None, model: None };
    let mut daily = Vec::new();
    let mut models = Vec::new();
    let total = |input, output| UsageRecord::Tokens {
        input,
        cached: 0,
        output,
        from_total: true,
        model: None,
    };
    apply_record(&mut state, total(100, 10), "d", &mut daily, &mut models);
    apply_record(&mut state, total(90, 10), "d", &mut daily, &mut models);
    assert_eq!(day_totals(&daily, "d"), DailyTotals { input: 100, cached: 0, output: 10 });
    assert_eq!(state.previous, Some(UsageTotals { input: 90, cached: 0, output: 10 }));
    apply_record(&mut state, total(95, 12), "d", &mut daily, &mut models);
    assert_eq!(day_totals(&daily, "d"), DailyTotals { input: 105, cached: 0, output: 12 });
    apply_record(&mut state, UsageRecord::Model("m".to_string()), "d", &mut daily, &mut models);
    assert_eq!(state.model.as_deref(), Some("m"));
    apply_record(&mut state, UsageRecord::Nothing, "d", &mut daily, &mut models);
    assert_eq!(models.len(), 1);
    assert_eq!(models[0].model, "unknown");
    assert_eq!(models[0].tokens, 117);
}

#[test]
fn sums_stop_at_the_ends_of_the_range() {
    assert_eq!(plus(1, 2), 3);
    assert_eq!(plus(i64::MAX, 1), i64::MAX);
    assert_eq!(plus(i64::MIN, -1), i64::MIN);
    assert_eq!(plus(i64::MAX, i64::MIN), -1);
    assert_eq!(gain(10, 4), 6);
    assert_eq!(gain(4, 10), 0);
    assert_eq!(gain(i64::MAX, i64::MIN), i64::MAX);
    assert_eq!(gain(i64::MIN, i64::MAX), 0);
    assert_eq!(gain(5, -5), 10);
}

#[test]
fn days_and_models_accumulate_by_key() {
    let mut daily = vec![day("a", 1, 1, 1)];
    add_to_day(&mut daily, "b", UsageTotals { input: 5, cached: 9, output: 2 });
    add_to_day(&mut daily, "a", UsageTotals { input: 5, cached: 2, output: 2 });
    assert_eq!(day_totals(&daily, "a"), DailyTotals { input: 6, cached: 3, output: 3 });
    assert_eq!(day_totals(&daily, "b"), DailyTotals { input: 5, cached: 5, output: 2 });
    assert_eq!(day_totals(&daily, "c"), DailyTotals::default());
    let mut models = Vec::new();
    add_to_model(&mut models, "x".to_string(), 4);
    add_to_model(&mut models, "y".to_string(), 1);
    add_to_model(&mut models, "x".to_string(), 6);
    assert_eq!(models.len(), 2);
    assert_eq!(models[0].tokens, 10);
    assert_eq!(UsageTotals::default(), UsageTotals { input: 0, cached: 0, output: 0 });
}

#[test]
fn snapshot_sums_days_and_finds_the_peak() {
    let keys: Vec<String> = (1..=9).map(|d| format!("2026-01-0{}", d)).collect();
    let daily = vec![
        day("2026-01-01", 100, 10, 1),
        day("2026-01-02", 200, 20, 2),
        day("2026-01-05", 50, 50, 0),
        day("2026-01-09", 200, 0, 2),
        day("2025-12-31", 999, 0, 0),
    ];
    let snapshot = build_snapshot(42, keys.clone(), daily, Vec::new());
    assert_eq!(snapshot.updated_at, 42);
    assert_eq!(snapshot.days.len(), 9);
    let days: Vec<&str> = snapshot.days.iter().map(|d| d.day.as_str()).collect();
    assert_eq!(days, keys.iter().map(|k| k.as_str()).collect::<Vec<_>>());
    assert_eq!(snapshot.days[1].input_tokens, 200);
    assert_eq!(snapshot.days[1].cached_input_tokens, 20);
    assert_eq!(snapshot.days[1].output_tokens, 2);
    assert_eq!(snapshot.days[1].total_tokens, 202);
    assert_eq!(snapshot.days[2].total_tokens, 0);
    assert_eq!(snapshot.totals.last30_days_tokens, 101 + 202 + 50 + 202);
    assert_eq!(snapshot.totals.last7_days_tokens, 50 + 202);
    assert_eq!(snapshot.totals.last7_input_tokens, 250);
    assert_eq!(snapshot.totals.last7_cached_input_tokens, 50);
    assert_eq!(snapshot.totals.last7_day_count, 7);
    assert_eq!(snapshot.totals.peak_day.as_deref(), Some("2026-01-09"));
    assert_eq!(snapshot.totals.peak_day_tokens, 202);
    assert!(snapshot.top_models.is_empty());
}

#[test]
fn snapshot_of_no_usage_has_no_peak() {
    let keys = vec!["a".to_string(), "b".to_string()];
    let snapshot = build_snapshot(0, keys, Vec::new(), Vec::new());
    assert_eq!(snapshot.totals.peak_day, None);
    assert_eq!(snapshot.totals.peak_day_tokens, 0);
    assert_eq!(snapshot.totals.last7_day_count, 2);
    assert_eq!(snapshot.totals.last30_days_tokens, 0);
    let empty = build_snapshot(0, Vec::new(), vec![day("a", 1, 0, 1)], Vec::new());
    assert!(empty.days.is_empty());
    assert_eq!(empty.totals.last7_day_count, 0);
    assert_eq!(empty.totals.peak_day, None);
}

#[test]
fn top_models_are_the_four_largest_known_models() {
    let models = vec![
        model("small", 1),
        model("unknown", 1000),
        model("big", 50),
        model("zero", 0),
        model("mid", 20),
        model("twin", 20),
        model("negative", -5),
        model("large", 40),
    ];
    let top = top_models(&models);
    let got: Vec<(&str, i64)> = top.iter().map(|m| (m.model.as_str(), m.tokens)).collect();
    assert_eq!(got, vec![("big", 50), ("large", 40), ("mid", 20), ("twin", 20)]);
    let few = top_models(&vec![model("a", 1), model("b", 2)]);
    let got: Vec<&str> = few.iter().map(|m| m.model.as_str()).collect();
    assert_eq!(got, vec!["b", "a"]);
    let snapshot = build_snapshot(1, Vec::new(), Vec::new(), models);
    assert_eq!(snapshot.top_models.len(), 4);
    assert_eq!(snapshot.top_models[0].model, "big");
}

#[test]
fn window_is_clamped_to_one_through_ninety() {
    assert_eq!(usage_window(None), 30);
    assert_eq!(usage_window(Some(0)), 1);
    assert_eq!(usage_window(Some(1)), 1);
    assert_eq!(usage_window(Some(45)), 45);
    assert_eq!(usage_window(Some(90)), 90);
    assert_eq!(usage_window(Some(91)), 90);
    assert_eq!(usage_window(Some(u32::MAX)), 90);
}

#[test]
fn sessions_root_follows_the_environment() {
    let some = |s: &str| Some(s.to_string());
    assert_eq!(
        resolve_codex_sessions_root(&some(" /data/codex "), &some("/home/u"), &None),
        some("/data/codex/sessions")
    );
    assert_eq!(
        resolve_codex_sessions_root(&some("  "), &some("/home/u"), &None),
        some("/home/u/.codex/sessions")
    );
    assert_eq!(
        resolve_codex_sessions_root(&None, &some(""), &some("C:/Users/u")),
        some("C:/Users/u/.codex/sessions")
    );
    assert_eq!(resolve_codex_sessions_root(&None, &None, &some(" ")), None);
    assert_eq!(resolve_codex_home(&None, &some("/h"), &None), some("/h/.codex"));
    assert_eq!(resolve_home_dir(&some(" /h "), &some("/p")), some("/h"));
    assert_eq!(resolve_home_dir(&None, &None), None);
}

#[test]
fn day_directory_is_year_month_day() {
    assert_eq!(day_dir_for_key("/root", "2026-01-19"), "/root/2026/01/19");
    assert_eq!(day_dir_for_key("/root", "2026-01"), "/root/2026/01/01");
    assert_eq!(day_dir_for_key("/root", "2026"), "/root/2026/01/01");
    assert_eq!(day_dir_for_key("/root", "2026-01-19-x"), "/root/2026/01/19");
    let expected = std::path::Path::new("/root").join("").join("01").join("01");
    assert_eq!(day_dir_for_key("/root", ""), expected.to_string_lossy());
}

#[test]
fn day_keys_run_up_to_today() {
    let today = chrono::NaiveDate::from_ymd_opt(2026, 3, 2).unwrap();
    assert_eq!(
        make_day_keys(today, 4),
        Some(vec![
            "2026-02-27".to_string(),
            "2026-02-28".to_string(),
            "2026-03-01".to_string(),
            "2026-03-02".to_string(),
        ])
    );
    assert_eq!(make_day_keys(today, 0), Some(Vec::new()));
    assert_eq!(make_day_keys(today, 90).unwrap().len(), 90);
    assert_eq!(day_key_before(today, 366), Some("2025-03-01".to_string()));
    assert_eq!(day_key_before(today, -1), Some("2026-03-03".to_string()));
    assert_eq!(day_key_before(today, i64::MAX), None);
    assert_eq!(day_key_before(chrono::NaiveDate::MIN, 1), None);
    assert_eq!(make_day_keys(chrono::NaiveDate::MIN, 2), None);
}
