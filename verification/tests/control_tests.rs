use arena_server::control::{
    control_match, exhibition_step, live_loop_action, live_teams, tick_nanos, LiveAction, ControlledPacer, ExhibitionStep, MatchCommand,
    MatchControlHandle, MatchRegistry, PacerStep,
};
use arena_server::pacer::{remaining_sleep, LivePacer, NoopPacer, TickPacer};
use arena_server::wire::requested_tps;

const PW: &str = "facil-pw";
const AUTH: Option<&str> = Some("Facilitator facil-pw");

fn names(v: &[&str]) -> Vec<String> {
    v.iter().map(|s| s.to_string()).collect()
}

#[test]
fn new_handle_is_running_at_its_rate() {
    let h = MatchControlHandle::new(30);
    assert!(!h.is_paused());
    assert!(!h.is_aborted());
    assert_eq!(h.tps(), 30);
    assert_eq!(h.tick_count(), 0);
    assert!(!h.must_wait());
}

#[test]
fn pause_then_resume_restores_running_state() {
    let mut h = MatchControlHandle::new(30);
    h.pause();
    assert!(h.is_paused());
    assert!(h.must_wait());
    h.resume();
    assert!(!h.is_paused());
    assert_eq!(h.tps(), 30);
}

#[test]
fn abort_releases_a_paused_loop_and_sticks() {
    let mut h = MatchControlHandle::new(30);
    h.pause();
    h.abort();
    assert!(h.is_aborted());
    assert!(!h.must_wait(), "an aborted match never waits");
    h.resume();
    h.set_tps(5);
    assert!(h.is_aborted());
}

#[test]
fn tick_counter_counts_and_wraps() {
    let mut h = MatchControlHandle::new(0);
    h.increment_tick();
    h.increment_tick();
    assert_eq!(h.tick_count(), 2);
}

#[test]
fn tick_length_is_rounded_nanoseconds() {
    assert_eq!(tick_nanos(1), 1_000_000_000);
    assert_eq!(tick_nanos(30), 33_333_333);
    assert_eq!(tick_nanos(3), 333_333_333);
    assert_eq!(tick_nanos(7), 142_857_143);
    assert_eq!(tick_nanos(u32::MAX), 0);
}

#[test]
fn tick_length_ties_round_to_even() {
    // 1/1024 s is exactly 976562.5 ns; 1/2048 s is 488281.25 ns; the double
    // nearest 1/2e9 s lies just above half a nanosecond.
    assert_eq!(tick_nanos(1024), 976_562);
    assert_eq!(tick_nanos(2048), 488_281);
    assert_eq!(tick_nanos(1_000_000_000), 1);
    assert_eq!(tick_nanos(2_000_000_000), 1);
    assert_eq!(tick_nanos(3_000_000_000), 0);
}

#[test]
fn controlled_pacer_waits_while_paused() {
    let mut h = MatchControlHandle::new(30);
    h.pause();
    let mut p = ControlledPacer::new();
    assert!(matches!(p.wait_for_next_tick(&h), PacerStep::WaitWhilePaused));
    h.abort();
    assert!(matches!(p.wait_for_next_tick(&h), PacerStep::Proceed));
}

#[test]
fn controlled_pacer_unpaced_proceeds_at_once() {
    let h = MatchControlHandle::new(0);
    let mut p = ControlledPacer::new();
    assert!(matches!(p.wait_for_next_tick(&h), PacerStep::Proceed));
}

#[test]
fn controlled_pacer_sleeps_at_most_one_tick() {
    let h = MatchControlHandle::new(10);
    let mut p = ControlledPacer::new();
    p.restart_tick();
    match p.wait_for_next_tick(&h) {
        PacerStep::SleepThenRestart(n) => assert!(n <= 100_000_000),
        _ => panic!("a paced running match sleeps"),
    }
}

#[test]
fn remaining_sleep_is_the_rest_of_the_tick() {
    assert_eq!(remaining_sleep(100, 30), 70);
    assert_eq!(remaining_sleep(100, 100), 0);
    assert_eq!(remaining_sleep(100, 250), 0);
}

#[test]
fn noop_pacer_never_sleeps() {
    let mut p = NoopPacer;
    assert_eq!(p.wait_for_next_tick(), 0);
    assert_eq!(p.wait_for_next_tick(), 0);
}

#[test]
fn live_pacer_sleeps_at_most_one_tick() {
    let mut p = LivePacer::new(20);
    p.begin_tick();
    let n = p.wait_for_next_tick();
    assert!(n <= 50_000_000);
    assert!(n > 0, "a step that took no time leaves most of the tick");
}

#[test]
fn match_registry_register_get_remove() {
    let mut reg = MatchRegistry::new();
    assert!(reg.get("m1").is_none());
    reg.register("m1".to_owned(), MatchControlHandle::new(30));
    assert_eq!(reg.get("m1").map(|h| h.tps()), Some(30));
    reg.remove("m1");
    assert!(reg.get("m1").is_none());
}

#[test]
fn pause_sets_paused_state_on_registered_handle() {
    let mut reg = MatchRegistry::new();
    reg.register("m1".to_owned(), MatchControlHandle::new(30));
    assert_eq!(control_match(&mut reg, AUTH, PW, "m1", MatchCommand::Pause), 200);
    assert!(reg.get("m1").unwrap().is_paused());
    assert_eq!(control_match(&mut reg, AUTH, PW, "m1", MatchCommand::Resume), 200);
    assert!(!reg.get("m1").unwrap().is_paused());
}

#[test]
fn set_tps_changes_the_rate() {
    let mut reg = MatchRegistry::new();
    reg.register("m1".to_owned(), MatchControlHandle::new(30));
    assert_eq!(control_match(&mut reg, AUTH, PW, "m1", MatchCommand::SetTps(60)), 200);
    assert_eq!(reg.get("m1").unwrap().tps(), 60);
}

#[test]
fn delete_aborts_and_forgets_the_match() {
    let mut reg = MatchRegistry::new();
    reg.register("m1".to_owned(), MatchControlHandle::new(30));
    reg.register("m2".to_owned(), MatchControlHandle::new(30));
    assert_eq!(control_match(&mut reg, AUTH, PW, "m1", MatchCommand::Abort), 200);
    assert!(reg.get("m1").is_none());
    assert!(reg.get("m2").is_some());
}

#[test]
fn control_of_unknown_match_is_404() {
    let mut reg = MatchRegistry::new();
    assert_eq!(control_match(&mut reg, AUTH, PW, "nope", MatchCommand::Pause), 404);
    assert_eq!(control_match(&mut reg, AUTH, PW, "nope", MatchCommand::Abort), 404);
}

#[test]
fn control_without_auth_is_401() {
    let mut reg = MatchRegistry::new();
    reg.register("m1".to_owned(), MatchControlHandle::new(30));
    assert_eq!(control_match(&mut reg, None, PW, "m1", MatchCommand::Pause), 401);
    assert_eq!(control_match(&mut reg, Some("Bearer facil-pw"), PW, "m1", MatchCommand::Abort), 401);
    assert!(!reg.get("m1").unwrap().is_paused());
}

#[test]
fn live_roster_is_padded_with_placeholders() {
    assert_eq!(live_teams(vec![]), names(&["team-a", "team-b"]));
    assert_eq!(live_teams(names(&["red"])), names(&["red", "team-a"]));
    assert_eq!(live_teams(names(&["team-a"])), names(&["team-a", "team-b"]));
    assert_eq!(live_teams(names(&["red", "blue", "green"])), names(&["red", "blue", "green"]));
}

#[test]
fn exhibition_stops_when_asked_or_done() {
    assert!(matches!(exhibition_step(true, 0, 0, vec![], names(&["a", "b"]), 1), ExhibitionStep::Stop));
    assert!(matches!(exhibition_step(false, 3, 3, vec![], names(&["a", "b"]), 1), ExhibitionStep::Stop));
}

#[test]
fn exhibition_waits_for_two_teams() {
    assert!(matches!(exhibition_step(false, 0, 0, vec![], names(&["a"]), 1), ExhibitionStep::WaitForTeams));
}

#[test]
fn exhibition_seeds_each_match_from_the_base() {
    match exhibition_step(false, 0, 4, vec![], names(&["a", "b"]), 100) {
        ExhibitionStep::StartMatch { seed, teams } => {
            assert_eq!(seed, 104);
            assert_eq!(teams, names(&["a", "b"]));
        },
        _ => panic!("a match must start"),
    }
    match exhibition_step(false, 5, 2, names(&["x", "y"]), names(&["a", "b"]), 7) {
        ExhibitionStep::StartMatch { seed, teams } => {
            assert_eq!(seed, 9);
            assert_eq!(teams, names(&["x", "y"]));
        },
        _ => panic!("a match must start"),
    }
}

#[test]
fn requested_tick_rate_defaults_to_thirty() {
    assert_eq!(requested_tps(None), 30);
    assert_eq!(requested_tps(Some(0)), 0);
    assert_eq!(requested_tps(Some(120)), 120);
}

#[test]
fn live_loop_steps_waits_and_finishes() {
    let mut h = MatchControlHandle::new(30);
    assert!(matches!(live_loop_action(false, &h), LiveAction::Step));
    assert!(matches!(live_loop_action(true, &h), LiveAction::Finish));
    h.pause();
    assert!(matches!(live_loop_action(false, &h), LiveAction::WaitWhilePaused));
    h.abort();
    assert!(matches!(live_loop_action(false, &h), LiveAction::Finish));
}

#[test]
fn tick_count_is_number_of_increments() {
    let mut h = MatchControlHandle::new(30);
    h.pause();
    assert_eq!(h.tick_count(), 0);
    for _ in 0..1000 {
        h.increment_tick();
    }
    assert_eq!(h.tick_count(), 1000);
    assert!(h.is_paused());
    assert_eq!(h.tps(), 30);
}

#[test]
fn registry_controls_are_what_the_match_obeys() {
    let mut reg = MatchRegistry::new();
    reg.register("m1".to_owned(), MatchControlHandle::new(0));
    reg.register("m2".to_owned(), MatchControlHandle::new(0));
    assert!(matches!(reg.live_action("m1", false), LiveAction::Step));
    assert!(reg.apply("m1", MatchCommand::Pause));
    assert!(matches!(reg.live_action("m1", false), LiveAction::WaitWhilePaused));
    assert_eq!(reg.get("m1").unwrap().tick_count(), 0, "no tick while paused");
    assert!(matches!(reg.live_action("m2", false), LiveAction::Step), "other matches untouched");
    assert!(reg.apply("m1", MatchCommand::Resume));
    assert!(reg.count_tick("m1"));
    assert!(reg.count_tick("m1"));
    assert_eq!(reg.get("m1").unwrap().tick_count(), 2);
    assert_eq!(reg.get("m2").unwrap().tick_count(), 0);
    assert!(reg.apply("m1", MatchCommand::Abort));
    assert!(matches!(reg.live_action("m1", false), LiveAction::Finish));
    assert!(reg.apply("m1", MatchCommand::Resume));
    assert!(reg.get("m1").unwrap().is_aborted(), "abort is sticky");
    assert!(!reg.apply("gone", MatchCommand::Pause));
    assert!(!reg.count_tick("gone"));
    assert!(matches!(reg.live_action("gone", false), LiveAction::Finish));
    assert!(matches!(reg.live_action("m2", true), LiveAction::Finish));
}
