use vstd::prelude::*;

use crate::auth::{check_facilitator_auth, facilitator_auth_ok, header_text};
use crate::health::{BotHealthStore, DqStore};
use crate::store::{is_wasm_artifact, is_wasm_artifact_spec, DefaultBotStore, DisabledStore, WasmBotStore};
use crate::text::str_eq;
use crate::wire::{requested_tps, StartMatchRequest};

verus! {

/// Whether the facilitator is authenticated by this header.
pub open spec fn admin_ok(auth_header: Option<&str>, facilitator_password: &str) -> bool {
    facilitator_auth_ok(header_text(auth_header), facilitator_password@)
}

/// `POST /admin/bots/{team}`: upload a WASM artifact on behalf of a team.
///
/// 401 without facilitator auth, 400 when the body is not a WASM artifact,
/// otherwise the artifact is stored for `team` and the status is 200.
pub fn admin_upload_bot(
    store: &mut WasmBotStore,
    auth_header: Option<&str>,
    facilitator_password: &str,
    team: &str,
    body: Vec<u8>,
) -> (status: u16)
    requires
        old(store).wf(),
    ensures
        final(store).wf(),
        !admin_ok(auth_header, facilitator_password) ==> status == 401 && final(store)@ == old(store)@,
        admin_ok(auth_header, facilitator_password) && !is_wasm_artifact_spec(body@) ==> status == 400
            && final(store)@ == old(store)@,
        admin_ok(auth_header, facilitator_password) && is_wasm_artifact_spec(body@) ==> status == 200
            && final(store)@ == old(store)@.insert(team@, body@),
{
    if check_facilitator_auth(auth_header, facilitator_password).is_err() {
        return 401;
    }
    if !is_wasm_artifact(body.as_slice()) {
        return 400;
    }
    store.store(team, body);
    200
}

/// `POST /admin/bots/{team}/disable` (`disabled == true`) and
/// `POST /admin/bots/{team}/enable` (`disabled == false`).
///
/// 401 without facilitator auth; otherwise the flag is set and the status is 200.
pub fn admin_set_disabled(
    store: &mut DisabledStore,
    auth_header: Option<&str>,
    facilitator_password: &str,
    team: &str,
    disabled: bool,
) -> (status: u16)
    requires
        old(store).wf(),
    ensures
        final(store).wf(),
        !admin_ok(auth_header, facilitator_password) ==> status == 401 && final(store)@ == old(store)@,
        admin_ok(auth_header, facilitator_password) ==> status == 200 && final(store)@ == (if disabled {
            old(store)@.insert(team@)
        } else {
            old(store)@.remove(team@)
        }),
{
    if check_facilitator_auth(auth_header, facilitator_password).is_err() {
        return 401;
    }
    if disabled {
        store.disable(team);
    } else {
        store.enable(team);
    }
    200
}

/// `POST /admin/default-bot`: set the custom Default Bot artifact.
///
/// 401 without facilitator auth, 400 when the body is not a WASM artifact,
/// otherwise 200 with the artifact stored.
pub fn admin_set_default_bot(
    store: &mut DefaultBotStore,
    auth_header: Option<&str>,
    facilitator_password: &str,
    body: Vec<u8>,
) -> (status: u16)
    ensures
        !admin_ok(auth_header, facilitator_password) ==> status == 401 && final(store)@ == old(store)@,
        admin_ok(auth_header, facilitator_password) && !is_wasm_artifact_spec(body@) ==> status == 400
            && final(store)@ == old(store)@,
        admin_ok(auth_header, facilitator_password) && is_wasm_artifact_spec(body@) ==> status == 200
            && final(store)@ == Some(body@),
{
    if check_facilitator_auth(auth_header, facilitator_password).is_err() {
        return 401;
    }
    if !is_wasm_artifact(body.as_slice()) {
        return 400;
    }
    store.set(body);
    200
}

/// `DELETE /admin/default-bot`: clear the custom Default Bot.
///
/// 401 without facilitator auth; otherwise 200 with the store emptied.
pub fn admin_clear_default_bot(
    store: &mut DefaultBotStore,
    auth_header: Option<&str>,
    facilitator_password: &str,
) -> (status: u16)
    ensures
        !admin_ok(auth_header, facilitator_password) ==> status == 401 && final(store)@ == old(store)@,
        admin_ok(auth_header, facilitator_password) ==> status == 200 && final(store)@ == None::<Seq<u8>>,
{
    if check_facilitator_auth(auth_header, facilitator_password).is_err() {
        return 401;
    }
    store.clear();
    200
}

/// `POST /admin/bots/{team}/kick`: disqualify a team and mark its health
/// entry disconnected.
///
/// 401 without facilitator auth; otherwise 200, the team is disqualified and,
/// when it has a health entry, that entry reads `connected == false` with all
/// else unchanged.
pub fn admin_kick_bot(
    dq: &mut DqStore,
    health: &mut BotHealthStore,
    auth_header: Option<&str>,
    facilitator_password: &str,
    team: &str,
) -> (status: u16)
    requires
        old(dq).wf(),
        old(health).wf(),
    ensures
        final(dq).wf(),
        final(health).wf(),
        !admin_ok(auth_header, facilitator_password) ==> status == 401 && final(dq)@ == old(dq)@
            && final(health)@ == old(health)@,
        admin_ok(auth_header, facilitator_password) ==> {
            &&& status == 200
            &&& final(dq)@ == old(dq)@.insert(team@)
            &&& final(health)@.dom() == old(health)@.dom()
            &&& forall|k: Seq<char>|
                k != team@ && #[trigger] old(health)@.contains_key(k) ==> final(health)@[k]
                    == old(health)@[k]
            &&& old(health)@.contains_key(team@) ==> {
                let e = final(health)@[team@];
                let o = old(health)@[team@];
                &&& !e.connected
                &&& e.team == o.team
                &&& e.kind == o.kind
                &&& e.skipped_ticks == o.skipped_ticks
                &&& e.crashes == o.crashes
                &&& e.last_seen_ms == o.last_seen_ms
                &&& e.logs@ == o.logs@
            }
        },
{
    if check_facilitator_auth(auth_header, facilitator_password).is_err() {
        return 401;
    }
    dq.disqualify(team);
    match health.take(team) {
        Some(entry) => {
            let mut entry = entry;
            proof {
                assert(entry.team@ == team@);
            }
            entry.set_connected(false);
            health.register(entry);
            proof {
                assert(health@.dom() =~= old(health)@.dom());
            }
        },
        None => {
            proof {
                assert(health@ =~= old(health)@);
            }
        },
    }
    200
}

/// How a match is to be run.
#[derive(PartialEq, Eq, Structural)]
pub enum StartMode {
    Headless,
    Live,
}

/// A checked `POST /admin/matches` request: everything needed to start it.
pub struct StartPlan {
    pub mode: StartMode,
    /// One ship per team, in this order.
    pub teams: Vec<String>,
    /// The match seed: the requested one, or the server's default.
    pub seed: u64,
    /// A requested match length, overriding the server's parameters.
    pub max_ticks: Option<u32>,
    /// Ticks per second for a live match (30 unless requested).
    pub tps: u32,
}

/// Why a `POST /admin/matches` request was refused.
#[derive(Clone, Copy, Debug, PartialEq, Eq, Structural)]
pub enum StartRefusal {
    /// No valid facilitator credentials: 401.
    Unauthorized,
    /// The roster has fewer than two teams: 400 with an error message.
    TooFewTeams,
    /// The mode is neither `"headless"` nor `"live"`: a bare 400.
    UnknownMode,
}

impl StartRefusal {
    /// The HTTP status of the refusal.
    pub fn status(&self) -> (s: u16)
        ensures
            s == (match *self {
                StartRefusal::Unauthorized => 401u16,
                _ => 400u16,
            }),
    {
        match self {
            StartRefusal::Unauthorized => 401,
            _ => 400,
        }
    }

    /// The `"error"` text of the JSON body that goes with the refusal, where
    /// it has one: only a short roster is explained.
    pub fn error_text(&self) -> (t: Option<&'static str>)
        ensures
            *self == StartRefusal::TooFewTeams ==> (t matches Some(m) && m@
                == "At least 2 registered teams needed."@),
            *self != StartRefusal::TooFewTeams ==> t is None,
    {
        match self {
            StartRefusal::TooFewTeams => Some("At least 2 registered teams needed."),
            _ => None,
        }
    }
}

/// `POST /admin/matches`: check the request and settle what to run.
///
/// Unauthorized without facilitator auth; the roster is the requested teams,
/// or the registered teams when none are requested; too few teams when the
/// roster has fewer than two (whatever the mode); an unknown mode when it is
/// neither `"headless"` nor `"live"`.
pub fn start_match_plan(
    auth_header: Option<&str>,
    facilitator_password: &str,
    request: StartMatchRequest,
    registered_teams: Vec<String>,
    default_seed: u64,
) -> (r: Result<StartPlan, StartRefusal>)
    ensures
        !admin_ok(auth_header, facilitator_password) ==> r == Err::<StartPlan, StartRefusal>(
            StartRefusal::Unauthorized,
        ),
        admin_ok(auth_header, facilitator_password) ==> {
            let roster = match request.teams {
                Some(t) => t@,
                None => registered_teams@,
            };
            if roster.len() < 2 {
                r == Err::<StartPlan, StartRefusal>(StartRefusal::TooFewTeams)
            } else if request.mode@ == "headless"@ || request.mode@ == "live"@ {
                r matches Ok(p) && p.teams@ == roster
                    && (p.mode == StartMode::Headless <==> request.mode@ == "headless"@)
                    && p.seed == (match request.seed {
                    Some(s) => s,
                    None => default_seed,
                }) && p.max_ticks == request.max_ticks && p.tps == (match request.tps {
                    Some(t) => t,
                    None => 30u32,
                })
            } else {
                r == Err::<StartPlan, StartRefusal>(StartRefusal::UnknownMode)
            }
        },
{
    if check_facilitator_auth(auth_header, facilitator_password).is_err() {
        return Err(StartRefusal::Unauthorized);
    }
    let seed = match request.seed {
        Some(s) => s,
        None => default_seed,
    };
    let teams = match request.teams {
        Some(t) => t,
        None => registered_teams,
    };
    if teams.len() < 2 {
        return Err(StartRefusal::TooFewTeams);
    }
    let tps = requested_tps(request.tps);
    let mode = if str_eq(request.mode.as_str(), "headless") {
        StartMode::Headless
    } else if str_eq(request.mode.as_str(), "live") {
        StartMode::Live
    } else {
        return Err(StartRefusal::UnknownMode);
    };
    Ok(StartPlan { mode, teams, seed, max_ticks: request.max_ticks, tps })
}

} // verus!
