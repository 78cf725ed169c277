use vstd::prelude::*;

use crate::auth::TokenRegistry;
use crate::health::BotHealthEntry;
use crate::wire::{AssignedMsg, JoinMsg};

verus! {

/// The WebSocket close code for a refused handshake (policy violation).
pub const CLOSE_POLICY_VIOLATION: u16 = 1008;

/// Why a bot's `join` was refused: the close code and reason sent back.
pub struct JoinRejection {
    pub code: u16,
    pub reason: String,
}

/// The handshake after `welcome`: a `join` that did not parse is refused as
/// malformed, one whose token does not resolve is refused as unauthorised,
/// and any other is answered with `assigned` carrying the token's team.
///
/// `join` is `None` when the bot's first text frame was not a valid `join`
/// message.
pub fn admit_join(registry: &TokenRegistry, join: Option<JoinMsg>) -> (r: Result<AssignedMsg, JoinRejection>)
    requires
        registry.wf(),
    ensures
        match join {
            None => r matches Err(e) && e.code == CLOSE_POLICY_VIOLATION && e.reason@
                == "malformed join message"@,
            Some(j) => if registry.token_map().contains_key(j.token@) {
                r matches Ok(m) && m.type_@ == "assigned"@ && m.ship_id@ == registry.token_map()[j.token@]
            } else {
                r matches Err(e) && e.code == CLOSE_POLICY_VIOLATION && e.reason@
                    == "invalid or absent token"@
            },
        },
{
    match join {
        None => Err(JoinRejection { code: CLOSE_POLICY_VIOLATION, reason: "malformed join message".to_owned() }),
        Some(j) => match registry.resolve(j.token.as_str()) {
            Some(team) => Ok(AssignedMsg::new(team)),
            None => Err(JoinRejection { code: CLOSE_POLICY_VIOLATION, reason: "invalid or absent token".to_owned() }),
        },
    }
}

/// How one tick of a WebSocket bot went.
pub enum WsTickEvent {
    /// The observation could not be sent: the bot's socket is gone.
    SendFailed,
    /// An action arrived before the deadline.
    ActionReceived,
    /// No action arrived before the deadline.
    DeadlineMissed,
}

/// Whether a tick went without an intent.
pub open spec fn tick_skipped(ev: WsTickEvent) -> bool {
    !(ev is ActionReceived)
}

/// The driver's own skipped-tick count after a tick.
pub fn ws_skipped_after(skipped: u64, ev: &WsTickEvent) -> (r: u64)
    requires
        tick_skipped(*ev) ==> skipped < u64::MAX,
    ensures
        r == (if tick_skipped(*ev) {
            skipped + 1
        } else {
            skipped as int
        }),
{
    match ev {
        WsTickEvent::ActionReceived => skipped,
        _ => skipped + 1,
    }
}

/// Bring a WebSocket bot's health entry up to date after a tick: an action in
/// time marks it seen now and connected; a miss counts a skipped tick; a dead
/// socket counts a skipped tick and marks it disconnected.
pub fn record_ws_tick(health: &mut BotHealthEntry, ev: &WsTickEvent)
    ensures
        final(health).team == old(health).team,
        final(health).kind == old(health).kind,
        final(health).crashes == old(health).crashes,
        final(health).logs@ == old(health).logs@,
        old(health).wf() ==> final(health).wf(),
        match *ev {
            WsTickEvent::ActionReceived => final(health).connected && final(health).skipped_ticks
                == old(health).skipped_ticks && final(health).last_seen_ms >= 0,
            WsTickEvent::DeadlineMissed => final(health).connected == old(health).connected
                && final(health).skipped_ticks == crate::health::bumped(old(health).skipped_ticks)
                && final(health).last_seen_ms == old(health).last_seen_ms,
            WsTickEvent::SendFailed => !final(health).connected && final(health).skipped_ticks
                == crate::health::bumped(old(health).skipped_ticks) && final(health).last_seen_ms
                == old(health).last_seen_ms,
        },
{
    match ev {
        WsTickEvent::ActionReceived => {
            health.touch();
            health.set_connected(true);
        },
        WsTickEvent::DeadlineMissed => {
            health.increment_skipped();
        },
        WsTickEvent::SendFailed => {
            health.increment_skipped();
            health.set_connected(false);
        },
    }
}

} // verus!
