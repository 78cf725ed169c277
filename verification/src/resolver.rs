use vstd::prelude::*;

use crate::store::{DefaultBotStore, WasmBotStore};
use crate::wasm_host::{WasmBotDriver, WasmHostError};

verus! {

/// One match slot: team identity and the pre-serialised tick-0 observation
/// that a WASM bot receives for warm-up (ignored by other drivers).
pub struct Slot {
    pub team: String,
    pub tick0_obs_json: String,
}

/// Which driver fills a slot.
#[derive(Debug, Clone, Copy, PartialEq, Eq, Structural)]
pub enum SlotPlan {
    /// The team's live WebSocket bot.
    Ws,
    /// The team's uploaded WASM bot.
    Wasm,
    /// The facilitator's custom Default Bot (a WASM artifact).
    CustomDefault,
    /// The built-in Default Bot.
    BuiltinDefault,
}

/// What the resolver knows about a slot's team.
pub struct SlotFacts {
    /// Moderation is active and the team is disqualified.
    pub disqualified: bool,
    /// Management is active and the team is disabled.
    pub disabled: bool,
    /// A live WebSocket bot is registered for the team.
    pub has_ws: bool,
    /// A WASM artifact is stored for the team (and has not failed to start).
    pub has_wasm: bool,
    /// A custom Default Bot artifact is set (and has not failed to start).
    pub has_custom_default: bool,
}

/// The default path: the custom Default Bot when one is set, the built-in one
/// otherwise.
pub open spec fn default_plan(f: SlotFacts) -> SlotPlan {
    if f.has_custom_default {
        SlotPlan::CustomDefault
    } else {
        SlotPlan::BuiltinDefault
    }
}

/// Slot priority: a disqualified team gets the built-in Default Bot; a
/// disabled team gets the default path; otherwise WS, then WASM, then the
/// default path.
pub open spec fn plan_slot_spec(f: SlotFacts) -> SlotPlan {
    if f.disqualified {
        SlotPlan::BuiltinDefault
    } else if f.disabled {
        default_plan(f)
    } else if f.has_ws {
        SlotPlan::Ws
    } else if f.has_wasm {
        SlotPlan::Wasm
    } else {
        default_plan(f)
    }
}

/// Choose the driver for a slot.  When a chosen WASM artifact fails to start,
/// ask again with that artifact marked absent; the built-in Default Bot always
/// starts, so every slot is filled.
pub fn plan_slot(f: &SlotFacts) -> (r: SlotPlan)
    ensures
        r == plan_slot_spec(*f),
{
    if f.disqualified {
        SlotPlan::BuiltinDefault
    } else if f.disabled {
        if f.has_custom_default {
            SlotPlan::CustomDefault
        } else {
            SlotPlan::BuiltinDefault
        }
    } else if f.has_ws {
        SlotPlan::Ws
    } else if f.has_wasm {
        SlotPlan::Wasm
    } else if f.has_custom_default {
        SlotPlan::CustomDefault
    } else {
        SlotPlan::BuiltinDefault
    }
}

/// The driver-kind label of a plan: `"ws"`, `"wasm"` (custom Default Bots are
/// WASM drivers too) or `"default"`.
pub open spec fn plan_kind_spec(p: SlotPlan) -> Seq<char> {
    match p {
        SlotPlan::Ws => "ws"@,
        SlotPlan::Wasm => "wasm"@,
        SlotPlan::CustomDefault => "wasm"@,
        SlotPlan::BuiltinDefault => "default"@,
    }
}

/// The driver-kind label of a plan.
pub fn plan_kind(p: SlotPlan) -> (r: String)
    ensures
        r@ == plan_kind_spec(p),
{
    match p {
        SlotPlan::Ws => "ws".to_owned(),
        SlotPlan::Wasm => "wasm".to_owned(),
        SlotPlan::CustomDefault => "wasm".to_owned(),
        SlotPlan::BuiltinDefault => "default".to_owned(),
    }
}

/// Law: a headless match (no WebSocket bots) never plans a WS driver.
pub proof fn lemma_headless_never_ws(f: SlotFacts)
    requires
        !f.has_ws,
    ensures
        plan_slot_spec(f) != SlotPlan::Ws,
{
}

/// Law: a disqualified or disabled team never gets its own bot.
pub proof fn lemma_moderated_gets_default(f: SlotFacts)
    requires
        f.disqualified || f.disabled,
    ensures
        plan_slot_spec(f) == SlotPlan::CustomDefault || plan_slot_spec(f) == SlotPlan::BuiltinDefault,
        f.disqualified ==> plan_slot_spec(f) == SlotPlan::BuiltinDefault,
{
}

/// Law: after every failure of a WASM start is fed back, the plan ends at a
/// driver that needs no artifact or at a live WS bot: clearing `has_wasm`
/// and `has_custom_default` leaves only WS or the built-in Default Bot.
pub proof fn lemma_fallback_terminates(f: SlotFacts)
    requires
        !f.has_wasm,
        !f.has_custom_default,
    ensures
        plan_slot_spec(f) == SlotPlan::Ws || plan_slot_spec(f) == SlotPlan::BuiltinDefault,
{
}

/// Law: a live WebSocket bot supersedes everything else for a team in good
/// standing, and the uploaded WASM bot comes before any default.
pub proof fn lemma_ws_supersedes_wasm(f: SlotFacts)
    requires
        !f.disqualified,
        !f.disabled,
    ensures
        f.has_ws ==> plan_slot_spec(f) == SlotPlan::Ws,
        !f.has_ws && f.has_wasm ==> plan_slot_spec(f) == SlotPlan::Wasm,
{
}

/// The driver chosen for a slot, built where it is a WASM module.
pub enum ResolvedDriver {
    /// Take the team's live WebSocket bot from the connection registry.
    Ws,
    /// The team's uploaded WASM bot, compiled and warmed up.
    Wasm(WasmBotDriver),
    /// The custom Default Bot artifact, compiled and warmed up.
    CustomDefault(WasmBotDriver),
    /// The built-in Default Bot.
    BuiltinDefault,
}

/// The kind a resolved driver reports: `"ws"`, `"wasm"` or `"default"`.
pub open spec fn resolved_kind_spec(r: ResolvedDriver) -> Seq<char> {
    match r {
        ResolvedDriver::Ws => "ws"@,
        ResolvedDriver::Wasm(_) => "wasm"@,
        ResolvedDriver::CustomDefault(_) => "wasm"@,
        ResolvedDriver::BuiltinDefault => "default"@,
    }
}

impl ResolvedDriver {
    /// The driver kind, as reported in bot health.
    pub fn kind(&self) -> (r: String)
        ensures
            r@ == resolved_kind_spec(*self),
    {
        match self {
            ResolvedDriver::Ws => "ws".to_owned(),
            ResolvedDriver::Wasm(_) => "wasm".to_owned(),
            ResolvedDriver::CustomDefault(_) => "wasm".to_owned(),
            ResolvedDriver::BuiltinDefault => "default".to_owned(),
        }
    }
}

/// The facts about a slot that the stores give.
pub open spec fn store_facts(
    team: Seq<char>,
    disqualified: bool,
    disabled: bool,
    has_ws: bool,
    wasm_store: Map<Seq<char>, Seq<u8>>,
    default_bot: Option<Seq<u8>>,
) -> SlotFacts {
    SlotFacts {
        disqualified,
        disabled,
        has_ws,
        has_wasm: wasm_store.contains_key(team),
        has_custom_default: default_bot is Some,
    }
}

/// The default path given the result of starting the custom Default Bot
/// (`None` when none is set): that bot when it started, the built-in Default
/// Bot otherwise.
pub fn default_from_start(started: Option<Result<WasmBotDriver, WasmHostError>>) -> (r: ResolvedDriver)
    ensures
        match started {
            Some(Ok(d)) => r == ResolvedDriver::CustomDefault(d),
            _ => r is BuiltinDefault,
        },
{
    match started {
        Some(Ok(d)) => ResolvedDriver::CustomDefault(d),
        _ => ResolvedDriver::BuiltinDefault,
    }
}

/// What a started driver is: well formed, compiled from `bytes`, warmed up
/// with `tick0`, with the given budget and no faults yet.
pub open spec fn started_from(d: WasmBotDriver, bytes: Seq<u8>, tick0: Seq<u8>, fuel_per_tick: u64) -> bool {
    &&& d.wf()
    &&& d.module_source() == bytes
    &&& d.warm_up_input() == tick0
    &&& d.fuel_budget() == fuel_per_tick
    &&& d.fuel_exhausted_spec() == 0
    &&& d.traps_spec() == 0
}

/// Build the custom Default Bot when one is set and it starts; the built-in
/// Default Bot otherwise.
fn build_default(default_bot: &DefaultBotStore, slot: &Slot, fuel_per_tick: u64) -> (r: ResolvedDriver)
    ensures
        r is CustomDefault || r is BuiltinDefault,
        r is CustomDefault ==> default_bot@ is Some,
        default_bot@ is None ==> r is BuiltinDefault,
        r matches ResolvedDriver::CustomDefault(d) ==> started_from(
            d,
            default_bot@->0,
            vstd::utf8::encode_utf8(slot.tick0_obs_json@),
            fuel_per_tick,
        ),
{
    match default_bot.get() {
        Some(bytes) => default_from_start(
            Some(WasmBotDriver::new(bytes.as_slice(), slot.tick0_obs_json.as_str(), fuel_per_tick)),
        ),
        None => default_from_start(None),
    }
}

/// The Wasm plan given the result of starting the team's artifact: that bot
/// when it started; otherwise the default path.
pub fn wasm_from_start(
    started: Result<WasmBotDriver, WasmHostError>,
    default_bot: &DefaultBotStore,
    slot: &Slot,
    fuel_per_tick: u64,
) -> (r: ResolvedDriver)
    ensures
        started matches Ok(d) ==> r == ResolvedDriver::Wasm(d),
        started is Err ==> r is CustomDefault || r is BuiltinDefault,
        started is Err && default_bot@ is None ==> r is BuiltinDefault,
        r matches ResolvedDriver::CustomDefault(d) ==> default_bot@ is Some && started_from(
            d,
            default_bot@->0,
            vstd::utf8::encode_utf8(slot.tick0_obs_json@),
            fuel_per_tick,
        ),
{
    match started {
        Ok(d) => ResolvedDriver::Wasm(d),
        Err(_) => build_default(default_bot, slot, fuel_per_tick),
    }
}

/// The facts about a slot, read from the stores.
pub fn slot_facts(
    slot: &Slot,
    disqualified: bool,
    disabled: bool,
    has_ws: bool,
    wasm_store: &WasmBotStore,
    default_bot: &DefaultBotStore,
) -> (f: SlotFacts)
    requires
        wasm_store.wf(),
    ensures
        f == store_facts(slot.team@, disqualified, disabled, has_ws, wasm_store@, default_bot@),
{
    SlotFacts {
        disqualified,
        disabled,
        has_ws,
        has_wasm: wasm_store.get(slot.team.as_str()).is_some(),
        has_custom_default: default_bot.get().is_some(),
    }
}

/// Law: a slot of a team in good standing with no bot of its own (no live
/// WebSocket bot, no uploaded WASM artifact) is planned for the custom
/// Default Bot whenever one is set, and for the built-in one otherwise;
/// so is a disabled team's slot.  Only a disqualified team is denied the
/// custom Default Bot.
pub proof fn law_empty_slot_gets_the_custom_default(
    team: Seq<char>,
    disqualified: bool,
    disabled: bool,
    has_ws: bool,
    wasm_store: Map<Seq<char>, Seq<u8>>,
    default_bot: Option<Seq<u8>>,
)
    requires
        !disqualified,
        disabled || (!has_ws && !wasm_store.contains_key(team)),
    ensures
        default_bot is Some ==> plan_slot_spec(
            store_facts(team, disqualified, disabled, has_ws, wasm_store, default_bot),
        ) == SlotPlan::CustomDefault,
        default_bot is None ==> plan_slot_spec(
            store_facts(team, disqualified, disabled, has_ws, wasm_store, default_bot),
        ) == SlotPlan::BuiltinDefault,
{
}

/// Choose and build the driver for one slot.
///
/// The plan follows `plan_slot`.  A WASM artifact that fails to compile,
/// instantiate or warm up never aborts the match: the slot falls back to the
/// default path, and a custom Default Bot that fails falls back to the
/// built-in one.  Every slot gets exactly one driver.
pub fn resolve_slot(
    slot: &Slot,
    disqualified: bool,
    disabled: bool,
    has_ws: bool,
    wasm_store: &WasmBotStore,
    default_bot: &DefaultBotStore,
    fuel_per_tick: u64,
) -> (r: ResolvedDriver)
    requires
        wasm_store.wf(),
    ensures
        ({
            let plan = plan_slot_spec(
                store_facts(slot.team@, disqualified, disabled, has_ws, wasm_store@, default_bot@),
            );
            &&& (r is Ws <==> plan == SlotPlan::Ws)
            &&& (r is Wasm ==> plan == SlotPlan::Wasm)
            &&& (r is CustomDefault ==> (plan == SlotPlan::Wasm || plan == SlotPlan::CustomDefault)
                && default_bot@ is Some)
            &&& (plan == SlotPlan::BuiltinDefault ==> r is BuiltinDefault)
        }),
        r matches ResolvedDriver::Wasm(d) ==> started_from(
            d,
            wasm_store@[slot.team@],
            vstd::utf8::encode_utf8(slot.tick0_obs_json@),
            fuel_per_tick,
        ),
        r matches ResolvedDriver::CustomDefault(d) ==> started_from(
            d,
            default_bot@->0,
            vstd::utf8::encode_utf8(slot.tick0_obs_json@),
            fuel_per_tick,
        ),
{
    let team_wasm = wasm_store.get(slot.team.as_str());
    let facts = slot_facts(slot, disqualified, disabled, has_ws, wasm_store, default_bot);
    match plan_slot(&facts) {
        SlotPlan::Ws => ResolvedDriver::Ws,
        SlotPlan::BuiltinDefault => ResolvedDriver::BuiltinDefault,
        SlotPlan::CustomDefault => build_default(default_bot, slot, fuel_per_tick),
        SlotPlan::Wasm => match team_wasm {
            Some(bytes) => wasm_from_start(
                WasmBotDriver::new(bytes.as_slice(), slot.tick0_obs_json.as_str(), fuel_per_tick),
                default_bot,
                slot,
                fuel_per_tick,
            ),
            None => build_default(default_bot, slot, fuel_per_tick),
        },
    }
}

} // verus!
