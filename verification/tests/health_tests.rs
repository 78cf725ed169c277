use arena_server::health::{BotHealthEntry, BotHealthStore, DqStore, MAX_LOG_BYTES};

#[test]
fn new_entry_starts_connected_and_clean() {
    let e = BotHealthEntry::new("red", "wasm");
    assert_eq!(e.team, "red");
    assert_eq!(e.kind, "wasm");
    assert!(e.connected);
    assert_eq!(e.skipped_ticks, 0);
    assert_eq!(e.crashes, 0);
    assert_eq!(e.last_seen_ms, -1);
    assert!(e.logs.is_empty());
}

#[test]
fn snapshot_of_unseen_entry_has_no_last_seen() {
    let e = BotHealthEntry::new("red", "ws");
    let s = e.snapshot();
    assert_eq!(s.team, "red");
    assert_eq!(s.kind, "ws");
    assert!(s.connected);
    assert_eq!(s.last_seen, None);
    assert_eq!(s.skipped_ticks, 0);
    assert_eq!(s.crashes, 0);
    assert_eq!(s.recent_logs, "");
}

#[test]
fn touch_records_a_recent_time() {
    let mut e = BotHealthEntry::new("red", "ws");
    e.touch();
    assert!(e.last_seen_ms > 1_600_000_000_000, "milliseconds since the epoch");
    assert_eq!(e.snapshot().last_seen, Some(e.last_seen_ms as u64));
}

#[test]
fn skipped_ticks_and_crashes_are_recorded() {
    let mut e = BotHealthEntry::new("red", "wasm");
    e.increment_skipped();
    e.increment_skipped();
    e.set_crashes(5);
    let s = e.snapshot();
    assert_eq!(s.skipped_ticks, 2);
    assert_eq!(s.crashes, 5);
}

#[test]
fn skipped_tick_counter_wraps() {
    let mut e = BotHealthEntry::new("red", "wasm");
    e.skipped_ticks = u64::MAX;
    e.increment_skipped();
    assert_eq!(e.skipped_ticks, 0);
}

#[test]
fn set_connected_changes_only_connection() {
    let mut e = BotHealthEntry::new("red", "wasm");
    e.append_logs(b"hi");
    e.set_connected(false);
    assert!(!e.connected);
    assert_eq!(e.logs, b"hi".to_vec());
    e.set_connected(true);
    assert!(e.connected);
}

#[test]
fn logs_accumulate_in_order() {
    let mut e = BotHealthEntry::new("red", "wasm");
    e.append_logs(b"init_called");
    e.append_logs(b"tick_called");
    assert_eq!(e.snapshot().recent_logs, "init_calledtick_called");
}

#[test]
fn log_buffer_keeps_only_the_newest_bytes() {
    let mut e = BotHealthEntry::new("red", "wasm");
    let first = vec![b'a'; MAX_LOG_BYTES - 10];
    e.append_logs(&first);
    let second = vec![b'b'; 30];
    e.append_logs(&second);
    assert_eq!(e.logs.len(), MAX_LOG_BYTES);
    assert_eq!(&e.logs[e.logs.len() - 30..], &second[..]);
    assert_eq!(e.logs[0], b'a');
    assert_eq!(e.logs.iter().filter(|b| **b == b'a').count(), MAX_LOG_BYTES - 30);
}

#[test]
fn oversized_single_append_keeps_its_tail() {
    let mut e = BotHealthEntry::new("red", "wasm");
    e.append_logs(b"old");
    let mut big = vec![b'x'; MAX_LOG_BYTES];
    big.extend_from_slice(b"END");
    e.append_logs(&big);
    assert_eq!(e.logs.len(), MAX_LOG_BYTES);
    assert!(e.logs.ends_with(b"END"));
    assert!(!e.logs.starts_with(b"old"));
}

#[test]
fn invalid_utf8_logs_are_replaced() {
    let mut e = BotHealthEntry::new("red", "wasm");
    e.append_logs(&[b'o', b'k', 0xff]);
    assert_eq!(e.snapshot().recent_logs, "ok\u{fffd}");
}

#[test]
fn store_lists_snapshots_sorted_by_team() {
    let mut store = BotHealthStore::new();
    store.register(BotHealthEntry::new("team-b", "default"));
    store.register(BotHealthEntry::new("team-a", "wasm"));
    store.register(BotHealthEntry::new("alpha", "ws"));
    let list = store.list_snapshots();
    let teams: Vec<&str> = list.iter().map(|s| s.team.as_str()).collect();
    assert_eq!(teams, vec!["alpha", "team-a", "team-b"]);
    assert_eq!(list[1].kind, "wasm");
}

#[test]
fn re_registering_replaces_the_entry() {
    let mut store = BotHealthStore::new();
    store.register(BotHealthEntry::new("red", "ws"));
    store.register(BotHealthEntry::new("red", "wasm"));
    assert_eq!(store.list_snapshots().len(), 1);
    assert_eq!(store.get("red").map(|e| e.kind.clone()), Some("wasm".to_owned()));
}

#[test]
fn take_removes_the_entry() {
    let mut store = BotHealthStore::new();
    store.register(BotHealthEntry::new("red", "ws"));
    let e = store.take("red").expect("present");
    assert_eq!(e.team, "red");
    assert!(store.get("red").is_none());
    assert!(store.take("red").is_none());
}

#[test]
fn disqualification_is_permanent_and_per_team() {
    let mut dq = DqStore::new();
    assert!(!dq.is_disqualified("red"));
    dq.disqualify("red");
    dq.disqualify("red");
    assert!(dq.is_disqualified("red"));
    assert!(!dq.is_disqualified("blue"));
    dq.disqualify("blue");
    assert!(dq.is_disqualified("red"));
}

#[test]
fn disqualified_teams_are_exactly_the_kicked_ones() {
    let mut dq = DqStore::new();
    dq.disqualify("a");
    assert!(dq.is_disqualified("a"));
    dq.disqualify("b");
    dq.disqualify("a");
    assert!(dq.is_disqualified("a"));
    assert!(dq.is_disqualified("b"));
    assert!(!dq.is_disqualified("c"));
}

#[test]
fn touch_at_records_the_reading_and_nothing_else() {
    let mut e = BotHealthEntry::new("red", "wasm");
    e.increment_skipped();
    e.touch_at(1_234);
    assert_eq!(e.last_seen_ms, 1_234);
    assert_eq!(e.skipped_ticks, 1);
    assert!(e.connected);
    let snap = e.snapshot();
    assert_eq!(snap.last_seen, Some(1_234));
    assert_eq!(snap.recent_logs, "");
}
