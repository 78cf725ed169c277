use arena_server::auth::TokenRegistry;
use arena_server::health::{exclusion_check, BotHealthEntry, DqStore};
use arena_server::session::{admit_join, record_ws_tick, ws_skipped_after, WsTickEvent, CLOSE_POLICY_VIOLATION};
use arena_server::wire::JoinMsg;

fn join(token: &str) -> JoinMsg {
    JoinMsg { session_id: "s-1".to_owned(), token: token.to_owned(), name: "bot".to_owned(), preferred_class: None }
}

#[test]
fn join_with_valid_token_is_assigned_its_team() {
    let mut reg = TokenRegistry::new();
    let token = reg.register("red");
    match admit_join(&reg, Some(join(&token))) {
        Ok(m) => {
            assert_eq!(m.type_, "assigned");
            assert_eq!(m.ship_id, "red");
        },
        Err(_) => panic!("a valid token is admitted"),
    }
}

#[test]
fn join_with_bad_token_is_closed_with_policy_violation() {
    let reg = TokenRegistry::new();
    match admit_join(&reg, Some(join("nope"))) {
        Err(e) => {
            assert_eq!(e.code, 1008);
            assert_eq!(e.reason, "invalid or absent token");
        },
        Ok(_) => panic!("an unknown token is refused"),
    }
}

#[test]
fn malformed_join_is_closed_with_policy_violation() {
    let reg = TokenRegistry::new();
    match admit_join(&reg, None) {
        Err(e) => {
            assert_eq!(e.code, CLOSE_POLICY_VIOLATION);
            assert_eq!(e.reason, "malformed join message");
        },
        Ok(_) => panic!("a malformed join is refused"),
    }
}

#[test]
fn ws_skip_counter_counts_misses_only() {
    assert_eq!(ws_skipped_after(3, &WsTickEvent::ActionReceived), 3);
    assert_eq!(ws_skipped_after(3, &WsTickEvent::DeadlineMissed), 4);
    assert_eq!(ws_skipped_after(0, &WsTickEvent::SendFailed), 1);
}

#[test]
fn ws_deadline_misses_count_skipped_ticks() {
    let mut h = BotHealthEntry::new("red", "ws");
    record_ws_tick(&mut h, &WsTickEvent::DeadlineMissed);
    record_ws_tick(&mut h, &WsTickEvent::DeadlineMissed);
    assert_eq!(h.skipped_ticks, 2);
    assert!(h.connected);
    assert_eq!(h.last_seen_ms, -1);
}

#[test]
fn ws_action_marks_seen_and_connected() {
    let mut h = BotHealthEntry::new("red", "ws");
    h.set_connected(false);
    record_ws_tick(&mut h, &WsTickEvent::ActionReceived);
    assert!(h.connected);
    assert!(h.last_seen_ms > 0);
    assert_eq!(h.skipped_ticks, 0);
}

#[test]
fn ws_dead_socket_marks_disconnected() {
    let mut h = BotHealthEntry::new("red", "ws");
    record_ws_tick(&mut h, &WsTickEvent::SendFailed);
    assert!(!h.connected);
    assert_eq!(h.skipped_ticks, 1);
}

#[test]
fn exclusion_gate_excludes_after_kick() {
    let mut dq = DqStore::new();
    let mut h = BotHealthEntry::new("red", "wasm");
    assert!(!exclusion_check(&dq, "red", &mut h));
    assert!(h.connected);
    dq.disqualify("red");
    assert!(exclusion_check(&dq, "red", &mut h));
    assert!(!h.connected);
    let mut other = BotHealthEntry::new("blue", "wasm");
    assert!(!exclusion_check(&dq, "blue", &mut other));
    assert!(other.connected);
}
