use server_lifecycle::history::{
    encode_record, rotation_keep, ToolCallRecord, ToolHistory, MAX_DISK_ENTRIES,
    MAX_HISTORY_ENTRIES, ROTATION_CHECK_INTERVAL,
};
use server_lifecycle::memory::{
    format_bytes, health_from_memory, memory_growth_alert, HealthStatus,
};
use server_lifecycle::usage::{is_new_session, ToolCategory, UsageTracker, SESSION_TIMEOUT_SECS};

fn record(timestamp: &str, tool: &str) -> ToolCallRecord {
    ToolCallRecord {
        timestamp: timestamp.to_string(),
        tool_name: tool.to_string(),
        args_json: "{}".to_string(),
        output_json: "null".to_string(),
        duration_ms: Some(5),
    }
}

#[test]
fn recorded_call_is_readable_until_removed() {
    let mut history = ToolHistory::new("test-instance".to_string());
    assert!(history.get_history_for_connection("conn-1").is_none());
    history.add_record("conn-1", record("2024-05-01T10:00:00Z", "read_file"));
    let records = history.get_history_for_connection("conn-1").unwrap();
    assert_eq!(records.len(), 1);
    assert_eq!(records[0].tool_name, "read_file");
    assert_eq!(records[0].timestamp, "2024-05-01T10:00:00Z");
    // Another connection's history is untouched.
    assert!(history.get_history_for_connection("conn-2").is_none());
    history.remove_connection("conn-1");
    assert!(history.get_history_for_connection("conn-1").is_none());
}

#[test]
fn ring_buffer_keeps_most_recent_records() {
    let mut history = ToolHistory::new("ring".to_string());
    for i in 0..(MAX_HISTORY_ENTRIES + 1) {
        history.add_record("conn", record("2024-05-01T10:00:00Z", &format!("tool-{i}")));
    }
    let records = history.get_history_for_connection("conn").unwrap();
    assert_eq!(records.len(), MAX_HISTORY_ENTRIES);
    // The oldest record was evicted; the most recent cap-many remain.
    assert_eq!(records[0].tool_name, "tool-1");
    assert_eq!(records[MAX_HISTORY_ENTRIES - 1].tool_name, format!("tool-{MAX_HISTORY_ENTRIES}"));
}

#[test]
fn track_call_serializes_payloads_and_stamps_time() {
    let mut history = ToolHistory::new("live".to_string());
    let mut args = serde_json::Map::new();
    args.insert("path".to_string(), serde_json::Value::String("/tmp/x".to_string()));
    let args = serde_json::Value::Object(args);
    let output = serde_json::Value::String("done \"ok\"".to_string());
    history.track_call("conn", "read_file".to_string(), args.clone(), output.clone(), Some(12));
    let records = history.get_history_for_connection("conn").unwrap();
    assert_eq!(records.len(), 1);
    assert_eq!(records[0].args_json, serde_json::to_string(&args).unwrap());
    assert_eq!(records[0].output_json, serde_json::to_string(&output).unwrap());
    assert_eq!(records[0].duration_ms, Some(12));
    // The stamp is a real RFC 3339 timestamp.
    assert!(chrono::DateTime::parse_from_rfc3339(&records[0].timestamp).is_ok());
}

#[test]
fn read_path_filters_by_tool_name() {
    let mut history = ToolHistory::new("filter".to_string());
    history.add_record("conn", record("2024-05-01T10:00:00Z", "read_file"));
    history.add_record("conn", record("2024-05-01T10:00:01Z", "write_file"));
    history.add_record("conn", record("2024-05-01T10:00:02Z", "read_file"));
    let recent = history.get_recent_calls_for_connection("conn", 10, 0, Some("read_file"), None);
    assert_eq!(recent.len(), 2);
    assert!(recent.iter().all(|r| r.tool_name == "read_file"));
    let recent = history.get_recent_calls_for_connection("conn", 10, 0, Some("absent"), None);
    assert!(recent.is_empty());
}

#[test]
fn read_path_filters_by_since_timestamp() {
    let mut history = ToolHistory::new("since".to_string());
    history.add_record("conn", record("2024-05-01T10:00:00Z", "early"));
    history.add_record("conn", record("2024-05-01T12:00:00Z", "late"));
    history.add_record("conn", record("not a timestamp", "odd"));
    let recent = history.get_recent_calls_for_connection(
        "conn",
        10,
        0,
        None,
        Some("2024-05-01T11:00:00Z"),
    );
    // The early record is filtered out; the unparseable stamp is kept.
    let names: Vec<&str> = recent.iter().map(|r| r.tool_name.as_str()).collect();
    assert_eq!(names, ["late", "odd"]);
    // An unparseable bound filters nothing.
    let recent = history.get_recent_calls_for_connection("conn", 10, 0, None, Some("garbage"));
    assert_eq!(recent.len(), 3);
}

#[test]
fn read_path_pagination() {
    let mut history = ToolHistory::new("page".to_string());
    for i in 0..5 {
        history.add_record("conn", record("2024-05-01T10:00:00Z", &format!("t{i}")));
    }
    // No filters and room for everything: the stored records exactly,
    // oldest first.
    let all = history.get_recent_calls_for_connection("conn", 100, 0, None, None);
    let names: Vec<&str> = all.iter().map(|r| r.tool_name.as_str()).collect();
    assert_eq!(names, ["t0", "t1", "t2", "t3", "t4"]);
    // Forward reading from an offset, bounded by max_results.
    let page = history.get_recent_calls_for_connection("conn", 2, 1, None, None);
    let names: Vec<&str> = page.iter().map(|r| r.tool_name.as_str()).collect();
    assert_eq!(names, ["t1", "t2"]);
    // An offset past the end yields nothing.
    let page = history.get_recent_calls_for_connection("conn", 2, 9, None, None);
    assert!(page.is_empty());
    // A negative offset returns the tail, max_results ignored.
    let page = history.get_recent_calls_for_connection("conn", 1, -3, None, None);
    let names: Vec<&str> = page.iter().map(|r| r.tool_name.as_str()).collect();
    assert_eq!(names, ["t2", "t3", "t4"]);
    // A tail longer than the history returns everything.
    let page = history.get_recent_calls_for_connection("conn", 1, -10, None, None);
    assert_eq!(page.len(), 5);
    // No records for an unknown connection.
    let page = history.get_recent_calls_for_connection("ghost", 10, 0, None, None);
    assert!(page.is_empty());
}

#[test]
fn encoded_record_is_one_line_of_valid_json() {
    let tricky = ToolCallRecord {
        timestamp: "2024-05-01T10:00:00Z".to_string(),
        tool_name: "quote\" backslash\\ newline\n tab\t".to_string(),
        args_json: "{\"k\":\"v\"}".to_string(),
        output_json: "null".to_string(),
        duration_ms: None,
    };
    let line = encode_record(&tricky);
    assert!(!line.contains('\n'));
    let parsed: serde_json::Value = serde_json::from_str(&line).unwrap();
    assert_eq!(
        parsed.get("tool_name").unwrap().as_str().unwrap(),
        "quote\" backslash\\ newline\n tab\t"
    );
    assert_eq!(parsed.get("timestamp").unwrap().as_str().unwrap(), "2024-05-01T10:00:00Z");
    assert!(parsed.get("duration_ms").unwrap().is_null());
    let timed = record("2024-05-01T10:00:00Z", "t");
    let parsed: serde_json::Value = serde_json::from_str(&encode_record(&timed)).unwrap();
    assert_eq!(parsed.get("duration_ms").unwrap().as_u64().unwrap(), 5);
}

#[test]
fn flush_drains_batches_into_log_lines() {
    let mut history = ToolHistory::new("flush".to_string());
    history.add_record("a", record("2024-05-01T10:00:00Z", "one"));
    history.add_record("b", record("2024-05-01T10:00:01Z", "two"));
    history.add_record("a", record("2024-05-01T10:00:02Z", "three"));
    let (lines, due) = history.flush_pending();
    assert_eq!(lines.len(), 3);
    assert!(!due);
    // Batches drain per connection, in first-seen order.
    let tools: Vec<String> = lines
        .iter()
        .map(|l| {
            let v: serde_json::Value = serde_json::from_str(l).unwrap();
            v.get("tool_name").unwrap().as_str().unwrap().to_string()
        })
        .collect();
    assert_eq!(tools, ["one", "three", "two"]);
    // Everything was drained: a second flush is empty and the
    // in-memory history is untouched.
    let (lines, due) = history.flush_pending();
    assert!(lines.is_empty());
    assert!(!due);
    assert_eq!(history.get_history_for_connection("a").unwrap().len(), 2);
}

#[test]
fn rotation_becomes_due_at_the_check_interval() {
    let mut history = ToolHistory::new("due".to_string());
    for i in 0..(ROTATION_CHECK_INTERVAL - 1) {
        history.add_record("conn", record("2024-05-01T10:00:00Z", &format!("t{i}")));
    }
    let (lines, due) = history.flush_pending();
    assert_eq!(lines.len(), ROTATION_CHECK_INTERVAL - 1);
    assert!(!due);
    // One more flushed record crosses the interval and resets it.
    history.add_record("conn", record("2024-05-01T10:00:00Z", "last"));
    let (lines, due) = history.flush_pending();
    assert_eq!(lines.len(), 1);
    assert!(due);
    // The counter was reset: the next small flush is not due again.
    history.add_record("conn", record("2024-05-01T10:00:00Z", "next"));
    let (_, due) = history.flush_pending();
    assert!(!due);
}

#[test]
fn rotation_keeps_the_most_recent_cap_lines() {
    let mut lines: Vec<String> = Vec::new();
    for i in 0..(MAX_DISK_ENTRIES + 3) {
        lines.push(format!("line-{i}"));
    }
    let kept = rotation_keep(&lines).unwrap();
    assert_eq!(kept.len(), MAX_DISK_ENTRIES);
    assert_eq!(kept[0], "line-3");
    assert_eq!(kept[MAX_DISK_ENTRIES - 1], format!("line-{}", MAX_DISK_ENTRIES + 2));
    // At or below the cap, nothing to rotate.
    lines.truncate(MAX_DISK_ENTRIES);
    assert!(rotation_keep(&lines).is_none());
}

#[test]
fn ingest_keeps_the_tail_under_the_legacy_key() {
    let mut history = ToolHistory::new("load".to_string());
    let mut records = Vec::new();
    for i in 0..(MAX_HISTORY_ENTRIES + 2) {
        records.push(record("2024-05-01T10:00:00Z", &format!("t{i}")));
    }
    history.ingest_loaded(records);
    let legacy = history.get_history_for_connection("__legacy__").unwrap();
    assert_eq!(legacy.len(), MAX_HISTORY_ENTRIES);
    assert_eq!(legacy[0].tool_name, "t2");
    // An empty load changes nothing.
    let mut fresh = ToolHistory::new("empty".to_string());
    fresh.ingest_loaded(Vec::new());
    assert!(fresh.get_history_for_connection("__legacy__").is_none());
}

#[test]
fn history_file_is_named_for_the_instance() {
    let history = ToolHistory::new("cat-42".to_string());
    assert_eq!(history.log_file_name(), "tool-history_cat-42.jsonl");
}

#[test]
fn usage_counters_advance_per_outcome() {
    let mut tracker = UsageTracker::new("u1".to_string());
    tracker.register_tool_category("read_file", ToolCategory::Filesystem);
    tracker.register_tool_category("run_cmd", ToolCategory::Terminal);
    tracker.register_tool_category("get_config", ToolCategory::Config);
    tracker.record_outcome("conn", "read_file", true, 1000);
    tracker.record_outcome("conn", "read_file", true, 1001);
    tracker.record_outcome("conn", "run_cmd", false, 1002);
    tracker.record_outcome("conn", "get_config", true, 1003);
    tracker.record_outcome("conn", "mystery", true, 1004);
    let stats = tracker.get_stats_for_connection("conn").unwrap();
    assert_eq!(stats.total_tool_calls, 5);
    assert_eq!(stats.successful_calls, 4);
    assert_eq!(stats.failed_calls, 1);
    assert_eq!(stats.filesystem_operations, 2);
    assert_eq!(stats.terminal_operations, 1);
    assert_eq!(stats.config_operations, 1);
    assert_eq!(stats.process_operations, 0);
    assert_eq!(stats.first_used, 1000);
    assert_eq!(stats.last_used, 1004);
    assert_eq!(stats.total_sessions, 1);
    assert_eq!(stats.tool_counts.get("read_file").copied(), Some(2));
    assert_eq!(stats.tool_counts.get("mystery").copied(), Some(1));
    assert!(tracker.get_stats_for_connection("other").is_none());
}

#[test]
fn long_gap_opens_a_new_session() {
    assert!(!is_new_session(0, SESSION_TIMEOUT_SECS));
    assert!(is_new_session(0, SESSION_TIMEOUT_SECS + 1));
    let mut tracker = UsageTracker::new("u2".to_string());
    tracker.record_outcome("conn", "t", true, 10_000);
    tracker.record_outcome("conn", "t", true, 10_100);
    let stats = tracker.get_stats_for_connection("conn").unwrap();
    assert_eq!(stats.total_sessions, 1);
    tracker.record_outcome("conn", "t", true, 10_100 + SESSION_TIMEOUT_SECS + 1);
    let stats = tracker.get_stats_for_connection("conn").unwrap();
    assert_eq!(stats.total_sessions, 2);
}

#[test]
fn usage_snapshot_is_valid_json() {
    let mut tracker = UsageTracker::new("u3".to_string());
    let empty = tracker.save();
    let parsed: serde_json::Value = serde_json::from_str(&empty).unwrap();
    assert!(parsed.as_object().unwrap().is_empty());
    tracker.register_tool_category("read_file", ToolCategory::Filesystem);
    tracker.record_outcome("conn \"one\"", "read_file", true, 77);
    tracker.record_outcome("conn \"one\"", "read_file", false, 78);
    let snapshot = tracker.shutdown();
    let parsed: serde_json::Value = serde_json::from_str(&snapshot).unwrap();
    let stats = parsed.get("conn \"one\"").unwrap();
    assert_eq!(stats.get("total_tool_calls").unwrap().as_u64().unwrap(), 2);
    assert_eq!(stats.get("successful_calls").unwrap().as_u64().unwrap(), 1);
    assert_eq!(stats.get("failed_calls").unwrap().as_u64().unwrap(), 1);
    assert_eq!(stats.get("filesystem_operations").unwrap().as_u64().unwrap(), 2);
    assert_eq!(stats.get("first_used").unwrap().as_i64().unwrap(), 77);
    assert_eq!(stats.get("last_used").unwrap().as_i64().unwrap(), 78);
    assert_eq!(
        stats.get("tool_counts").unwrap().get("read_file").unwrap().as_u64().unwrap(),
        2
    );
}

#[test]
fn usage_remove_connection_drops_stats() {
    let mut tracker = UsageTracker::new("u4".to_string());
    tracker.record_outcome("conn", "t", true, 5);
    assert!(tracker.get_stats_for_connection("conn").is_some());
    tracker.remove_connection("conn");
    assert!(tracker.get_stats_for_connection("conn").is_none());
    // The next event starts fresh statistics.
    tracker.record_outcome("conn", "t", true, 9);
    let stats = tracker.get_stats_for_connection("conn").unwrap();
    assert_eq!(stats.total_tool_calls, 1);
    assert_eq!(stats.first_used, 9);
}

#[test]
fn tracker_uptime_and_file_name() {
    let tracker = UsageTracker::new("abc".to_string());
    assert_eq!(tracker.stats_file_path(), "stats_abc.json");
    let now = chrono::Utc::now().timestamp();
    assert!(tracker.uptime(now + 10) >= 10);
    assert_eq!(tracker.uptime(i64::MIN), 0);
}

#[test]
fn byte_formatting() {
    assert_eq!(format_bytes(0), "0 bytes");
    assert_eq!(format_bytes(512), "512 bytes");
    assert_eq!(format_bytes(1_048_575), "1048575 bytes");
    assert_eq!(format_bytes(1_048_576), "1.00 MB");
    assert_eq!(format_bytes(2_621_440), "2.50 MB");
    assert_eq!(format_bytes(1_073_741_824), "1.00 GB");
    assert_eq!(format_bytes(1_610_612_736), "1.50 GB");
}

#[test]
fn memory_health_and_growth() {
    assert_eq!(health_from_memory(1), HealthStatus::Healthy);
    assert_eq!(health_from_memory(0), HealthStatus::Unhealthy);
    assert_eq!(health_from_memory(1).label(), "HEALTHY");
    assert_eq!(health_from_memory(0).label(), "UNHEALTHY");
    assert!(memory_growth_alert(0, 100 * 1024 * 1024));
    assert!(!memory_growth_alert(0, 100 * 1024 * 1024 - 1));
    // Shrinking memory never alerts.
    assert!(!memory_growth_alert(500 * 1024 * 1024, 100));
}
