use arena_server::resolver::{plan_kind, plan_slot, SlotFacts, SlotPlan};
use arena_server::types::{ship_class_to_str, sigil_to_str, ShipClass, Sigil};
use arena_server::wire::{AssignedMsg, MatchStartMsg, WelcomeMsg};

fn facts(disqualified: bool, disabled: bool, has_ws: bool, has_wasm: bool, has_custom_default: bool) -> SlotFacts {
    SlotFacts { disqualified, disabled, has_ws, has_wasm, has_custom_default }
}

#[test]
fn plan_is_builtin_default_when_neither_ws_nor_wasm() {
    let p = plan_slot(&facts(false, false, false, false, false));
    assert_eq!(p, SlotPlan::BuiltinDefault);
    assert_eq!(plan_kind(p), "default");
}

#[test]
fn plan_is_wasm_when_only_wasm_present() {
    let p = plan_slot(&facts(false, false, false, true, false));
    assert_eq!(p, SlotPlan::Wasm);
    assert_eq!(plan_kind(p), "wasm");
}

#[test]
fn plan_prefers_ws_over_wasm() {
    let p = plan_slot(&facts(false, false, true, true, true));
    assert_eq!(p, SlotPlan::Ws);
    assert_eq!(plan_kind(p), "ws");
}

#[test]
fn plan_uses_custom_default_for_empty_slot() {
    let p = plan_slot(&facts(false, false, false, false, true));
    assert_eq!(p, SlotPlan::CustomDefault);
    assert_eq!(plan_kind(p), "wasm");
}

#[test]
fn disabled_team_with_ws_bot_gets_a_default() {
    assert_eq!(plan_slot(&facts(false, true, true, true, false)), SlotPlan::BuiltinDefault);
    assert_eq!(plan_slot(&facts(false, true, true, true, true)), SlotPlan::CustomDefault);
}

#[test]
fn disqualified_team_always_gets_the_builtin_default() {
    assert_eq!(plan_slot(&facts(true, false, true, true, true)), SlotPlan::BuiltinDefault);
    assert_eq!(plan_slot(&facts(true, true, false, false, true)), SlotPlan::BuiltinDefault);
}

#[test]
fn headless_slots_never_plan_ws() {
    for bits in 0u8..16 {
        let f = facts(bits & 1 != 0, bits & 2 != 0, false, bits & 4 != 0, bits & 8 != 0);
        assert_ne!(plan_slot(&f), SlotPlan::Ws);
    }
}

#[test]
fn sigil_and_class_names() {
    assert_eq!(sigil_to_str(&Sigil::Afterburner), "Afterburner");
    assert_eq!(sigil_to_str(&Sigil::Bulwark), "Bulwark");
    assert_eq!(sigil_to_str(&Sigil::Singularity), "Singularity");
    assert_eq!(sigil_to_str(&Sigil::AetherMine), "AetherMine");
    assert_eq!(sigil_to_str(&Sigil::ArcLance), "ArcLance");
    assert_eq!(ship_class_to_str(&ShipClass::Skiff), "skiff");
}

#[test]
fn server_messages_carry_protocol_fields() {
    let w = WelcomeMsg::new("sess-1".to_owned());
    assert_eq!(w.type_, "welcome");
    assert_eq!(w.protocol_version, "1");
    assert_eq!(w.session_id, "sess-1");
    assert_eq!(w.game_type, "ShatterbeltSalvagers");
    let a = AssignedMsg::new("red".to_owned());
    assert_eq!(a.type_, "assigned");
    assert_eq!(a.ship_id, "red");
    assert_eq!(MatchStartMsg::new().type_, "matchStart");
}
