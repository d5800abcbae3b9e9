use agent::decimal::{parse_i64, parse_unsigned};
use agent::snapshot::SystemSnapshot;
use agent::storage::{files_to_prune, stem_timestamp, time_series_file_name, SnapshotHistory};

#[test]
fn appended_snapshot_is_newest_entry() {
    let mut h = SnapshotHistory::new();
    for ts in 1..=3 {
        h.append_retained(SystemSnapshot::empty_at(ts), 5);
    }
    let mut s = SystemSnapshot::empty_at(99);
    s.uptime_seconds = 1234;
    s.hostname = Some("host".to_string());
    h.append_retained(s, 5);
    let last = h.snapshots.last().unwrap();
    assert_eq!(last.timestamp, 99);
    assert_eq!(last.uptime_seconds, 1234);
    assert_eq!(last.hostname.as_deref(), Some("host"));
    assert_eq!(h.snapshots.len(), 4);
}

#[test]
fn consolidated_history_keeps_newest_suffix() {
    let mut h = SnapshotHistory::new();
    for ts in 1..=6 {
        h.append_retained(SystemSnapshot::empty_at(ts), 3);
    }
    let ts: Vec<i64> = h.snapshots.iter().map(|s| s.timestamp).collect();
    assert_eq!(ts, vec![4, 5, 6]);
    h.append_retained(SystemSnapshot::empty_at(7), 0);
    assert!(h.snapshots.is_empty());
}

#[test]
fn time_series_names() {
    assert_eq!(time_series_file_name(1700000000123), "system_snapshot_1700000000123.json");
    assert_eq!(time_series_file_name(0), "system_snapshot_0.json");
    assert_eq!(time_series_file_name(-5), "system_snapshot_-5.json");
    assert_eq!(time_series_file_name(i64::MIN), "system_snapshot_-9223372036854775808.json");
}

#[test]
fn stems_parse_to_timestamps() {
    assert_eq!(stem_timestamp("system_snapshot_1700000000123"), Some(1700000000123));
    assert_eq!(stem_timestamp("system_snapshot_-42"), Some(-42));
    assert_eq!(stem_timestamp("system_snapshot_+7"), Some(7));
    assert_eq!(stem_timestamp("system_snapshot_"), None);
    assert_eq!(stem_timestamp("system_snapshot_12a"), None);
    assert_eq!(stem_timestamp("snapshot_12"), None);
    assert_eq!(stem_timestamp("system_snapshot_9223372036854775808"), None);
}

#[test]
fn pruning_keeps_the_newest_files() {
    let stems: Vec<String> = [5, 1, 9, 3, 7, 2]
        .iter()
        .map(|t| format!("system_snapshot_{t}"))
        .chain(std::iter::once("notes".to_string()))
        .collect();
    let doomed = files_to_prune(&stems, 3);
    assert_eq!(doomed, vec![1, 5, 3]);
    let kept: Vec<&String> = (0..stems.len()).filter(|i| !doomed.contains(i)).map(|i| &stems[i]).collect();
    assert_eq!(kept.len(), 4);
    assert!(kept.contains(&&"notes".to_string()));
    for t in [5, 9, 7] {
        assert!(kept.contains(&&format!("system_snapshot_{t}")));
    }
}

#[test]
fn pruning_skipped_for_zero_limit_or_few_files() {
    let stems: Vec<String> = (0..5).map(|t| format!("system_snapshot_{t}")).collect();
    assert!(files_to_prune(&stems, 0).is_empty());
    assert!(files_to_prune(&stems, 5).is_empty());
    assert_eq!(files_to_prune(&stems, 4), vec![0]);
}

#[test]
fn pruning_breaks_ties_by_listing_order() {
    let stems = vec![
        "system_snapshot_4".to_string(),
        "system_snapshot_04".to_string(),
        "system_snapshot_1".to_string(),
    ];
    assert_eq!(files_to_prune(&stems, 1), vec![2, 0]);
}

#[test]
fn decimal_parsing() {
    assert_eq!(parse_i64(b"-9223372036854775808"), Some(i64::MIN));
    assert_eq!(parse_i64(b"9223372036854775807"), Some(i64::MAX));
    assert_eq!(parse_i64(b"-"), None);
    assert_eq!(parse_i64(b"+"), None);
    assert_eq!(parse_i64(b""), None);
    assert_eq!(parse_i64(b"--1"), None);
    assert_eq!(parse_unsigned(b"+288", u64::MAX), Some(288));
    assert_eq!(parse_unsigned(b"18446744073709551615", u64::MAX), Some(u64::MAX));
    assert_eq!(parse_unsigned(b"18446744073709551616", u64::MAX), None);
    assert_eq!(parse_unsigned(b"-1", u64::MAX), None);
    assert_eq!(parse_unsigned(b"11", 10), None);
}
