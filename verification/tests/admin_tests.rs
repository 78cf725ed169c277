use arena_server::admin::{
    admin_clear_default_bot, admin_kick_bot, admin_set_default_bot, admin_set_disabled, admin_upload_bot,
    start_match_plan, StartMode, StartRefusal,
};
use arena_server::health::{BotHealthEntry, BotHealthStore, DqStore};
use arena_server::store::{DefaultBotStore, DisabledStore, WasmBotStore};
use arena_server::wire::StartMatchRequest;

const PW: &str = "facil-pw";
const AUTH: Option<&str> = Some("Facilitator facil-pw");
const WRONG: Option<&str> = Some("Facilitator nope");

fn magic_body() -> Vec<u8> {
    vec![0x00, 0x61, 0x73, 0x6d, 0x01, 0x00, 0x00, 0x00]
}

fn teams(names: &[&str]) -> Vec<String> {
    names.iter().map(|s| s.to_string()).collect()
}

#[test]
fn admin_upload_without_auth_is_401_and_stores_nothing() {
    let mut store = WasmBotStore::new();
    assert_eq!(admin_upload_bot(&mut store, None, PW, "team-a", magic_body()), 401);
    assert_eq!(admin_upload_bot(&mut store, WRONG, PW, "team-a", magic_body()), 401);
    assert_eq!(store.get("team-a"), None);
}

#[test]
fn admin_upload_with_auth_and_valid_wasm_is_200_and_stores() {
    let mut store = WasmBotStore::new();
    assert_eq!(admin_upload_bot(&mut store, AUTH, PW, "team-a", magic_body()), 200);
    assert_eq!(store.get("team-a"), Some(magic_body()));
}

#[test]
fn admin_upload_with_invalid_body_is_400() {
    let mut store = WasmBotStore::new();
    assert_eq!(admin_upload_bot(&mut store, AUTH, PW, "team-a", b"garbage".to_vec()), 400);
    assert_eq!(store.get("team-a"), None);
}

#[test]
fn disable_and_enable_through_the_admin_plane() {
    let mut d = DisabledStore::new();
    assert_eq!(admin_set_disabled(&mut d, AUTH, PW, "team-a", true), 200);
    assert!(d.is_disabled("team-a"));
    assert_eq!(admin_set_disabled(&mut d, AUTH, PW, "team-a", false), 200);
    assert!(!d.is_disabled("team-a"));
}

#[test]
fn disable_without_auth_is_401() {
    let mut d = DisabledStore::new();
    assert_eq!(admin_set_disabled(&mut d, None, PW, "team-a", true), 401);
    assert!(!d.is_disabled("team-a"));
    d.disable("team-a");
    assert_eq!(admin_set_disabled(&mut d, WRONG, PW, "team-a", false), 401);
    assert!(d.is_disabled("team-a"));
}

#[test]
fn default_bot_set_and_clear() {
    let mut s = DefaultBotStore::new();
    assert_eq!(admin_set_default_bot(&mut s, AUTH, PW, magic_body()), 200);
    assert_eq!(s.get(), Some(magic_body()));
    assert_eq!(admin_set_default_bot(&mut s, AUTH, PW, vec![1, 2, 3, 4]), 400);
    assert_eq!(s.get(), Some(magic_body()));
    assert_eq!(admin_clear_default_bot(&mut s, AUTH, PW), 200);
    assert_eq!(s.get(), None);
}

#[test]
fn default_bot_endpoints_require_auth() {
    let mut s = DefaultBotStore::new();
    assert_eq!(admin_set_default_bot(&mut s, None, PW, magic_body()), 401);
    assert_eq!(s.get(), None);
    s.set(magic_body());
    assert_eq!(admin_clear_default_bot(&mut s, WRONG, PW), 401);
    assert_eq!(s.get(), Some(magic_body()));
}

#[test]
fn kick_disqualifies_and_marks_disconnected() {
    let mut dq = DqStore::new();
    let mut health = BotHealthStore::new();
    let mut e = BotHealthEntry::new("team-a", "wasm");
    e.increment_skipped();
    health.register(e);
    health.register(BotHealthEntry::new("team-b", "default"));
    assert_eq!(admin_kick_bot(&mut dq, &mut health, AUTH, PW, "team-a"), 200);
    assert!(dq.is_disqualified("team-a"));
    assert!(!dq.is_disqualified("team-b"));
    let a = health.get("team-a").expect("entry kept");
    assert!(!a.connected);
    assert_eq!(a.skipped_ticks, 1);
    assert!(health.get("team-b").expect("untouched").connected);
}

#[test]
fn kick_of_team_without_health_entry_still_disqualifies() {
    let mut dq = DqStore::new();
    let mut health = BotHealthStore::new();
    assert_eq!(admin_kick_bot(&mut dq, &mut health, AUTH, PW, "ghost"), 200);
    assert!(dq.is_disqualified("ghost"));
    assert!(health.get("ghost").is_none());
}

#[test]
fn kick_requires_auth() {
    let mut dq = DqStore::new();
    let mut health = BotHealthStore::new();
    health.register(BotHealthEntry::new("team-a", "wasm"));
    assert_eq!(admin_kick_bot(&mut dq, &mut health, None, PW, "team-a"), 401);
    assert_eq!(admin_kick_bot(&mut dq, &mut health, WRONG, PW, "team-a"), 401);
    assert!(!dq.is_disqualified("team-a"));
    assert!(health.get("team-a").unwrap().connected);
}

fn request(mode: &str, teams: Option<Vec<String>>) -> StartMatchRequest {
    StartMatchRequest { mode: mode.to_owned(), seed: None, max_ticks: None, teams, tps: None }
}

#[test]
fn start_plan_rejects_wrong_facilitator_password() {
    assert!(matches!(start_match_plan(WRONG, PW, request("headless", None), teams(&["a", "b"]), 42), Err(StartRefusal::Unauthorized)));
    assert!(matches!(start_match_plan(None, PW, request("headless", None), teams(&["a", "b"]), 42), Err(StartRefusal::Unauthorized)));
}

#[test]
fn start_plan_headless_uses_registered_teams_and_default_seed() {
    match start_match_plan(AUTH, PW, request("headless", None), teams(&["a", "b"]), 42) {
        Ok(plan) => {
            assert!(plan.mode == StartMode::Headless);
            assert_eq!(plan.teams, teams(&["a", "b"]));
            assert_eq!(plan.seed, 42);
            assert_eq!(plan.max_ticks, None);
            assert_eq!(plan.tps, 30);
        },
        Err(_) => panic!("headless start must succeed"),
    }
}

#[test]
fn start_plan_live_takes_the_requested_settings() {
    let req = StartMatchRequest {
        mode: "live".to_owned(),
        seed: Some(7),
        max_ticks: Some(20),
        teams: Some(teams(&["x", "y", "z"])),
        tps: Some(60),
    };
    match start_match_plan(AUTH, PW, req, teams(&["a", "b"]), 42) {
        Ok(plan) => {
            assert!(plan.mode == StartMode::Live);
            assert_eq!(plan.teams, teams(&["x", "y", "z"]));
            assert_eq!(plan.seed, 7);
            assert_eq!(plan.max_ticks, Some(20));
            assert_eq!(plan.tps, 60);
        },
        Err(_) => panic!("live start must succeed"),
    }
}

#[test]
fn start_plan_needs_two_teams_and_a_known_mode() {
    assert!(matches!(start_match_plan(AUTH, PW, request("headless", None), teams(&["a"]), 1), Err(StartRefusal::TooFewTeams)));
    assert!(matches!(start_match_plan(AUTH, PW, request("headless", Some(vec![])), teams(&["a", "b"]), 1), Err(StartRefusal::TooFewTeams)));
    assert!(matches!(start_match_plan(AUTH, PW, request("turbo", None), teams(&["a", "b"]), 1), Err(StartRefusal::UnknownMode)));
    // A short roster is refused first, whatever the mode.
    assert!(matches!(start_match_plan(AUTH, PW, request("turbo", None), teams(&["a"]), 1), Err(StartRefusal::TooFewTeams)));
}

#[test]
fn start_refusals_carry_status_and_message() {
    assert_eq!(StartRefusal::Unauthorized.status(), 401);
    assert_eq!(StartRefusal::TooFewTeams.status(), 400);
    assert_eq!(StartRefusal::UnknownMode.status(), 400);
    assert_eq!(StartRefusal::TooFewTeams.error_text(), Some("At least 2 registered teams needed."));
    assert_eq!(StartRefusal::UnknownMode.error_text(), None);
    assert_eq!(StartRefusal::Unauthorized.error_text(), None);
}
