use vstd::prelude::*;

use crate::auth::{facilitator_auth_ok, tokens_after_register};
use crate::control::{
    command_effect, controls_of, incremented, incremented_times, live_action_spec, LiveAction, live_teams_spec, placeholder_a, placeholder_b, ControlView, MatchCommand,
};
use crate::health::{appended_logs, MAX_LOG_BYTES};
use crate::resolver::{plan_slot_spec, store_facts, SlotPlan};
use crate::text::strip_prefix_spec;

verus! {

/// Law: uploading twice for one team keeps only the second artifact, and an
/// upload for one team leaves every other team's artifact as it was.
pub proof fn law_upload_replaces_and_isolates(
    store: Map<Seq<char>, Seq<u8>>,
    team: Seq<char>,
    first: Seq<u8>,
    second: Seq<u8>,
    other: Seq<char>,
)
    requires
        other != team,
    ensures
        store.insert(team, first).insert(team, second)[team] == second,
        store.insert(team, first).insert(team, second) == store.insert(team, second),
        store.insert(team, second).contains_key(other) == store.contains_key(other),
        store.contains_key(other) ==> store.insert(team, second)[other] == store[other],
{
    assert(store.insert(team, first).insert(team, second) =~= store.insert(team, second));
}

/// Law: disabling a team and enabling it again restores the set of disabled
/// teams when the team was not disabled before; a disabled team reads as
/// disabled and an enabled one does not.
pub proof fn law_disable_enable_roundtrip(disabled: Set<Seq<char>>, team: Seq<char>)
    ensures
        disabled.insert(team).contains(team),
        !disabled.remove(team).contains(team),
        !disabled.contains(team) ==> disabled.insert(team).remove(team) == disabled,
{
    if !disabled.contains(team) {
        assert(disabled.insert(team).remove(team) =~= disabled);
    }
}

/// Law: disqualification is permanent: disqualifying any team keeps every
/// team that was already disqualified.
pub proof fn law_disqualification_is_permanent(dq: Set<Seq<char>>, team: Seq<char>, other: Seq<char>)
    requires
        dq.contains(other),
    ensures
        dq.insert(team).contains(other),
        dq.insert(team).contains(team),
{
}

/// Law: the log buffer never holds more than `MAX_LOG_BYTES` bytes and always
/// ends with the most recent bytes appended (all of them when they fit).
pub proof fn law_log_buffer_is_capped_suffix(logs: Seq<u8>, bytes: Seq<u8>)
    requires
        logs.len() <= MAX_LOG_BYTES,
    ensures
        appended_logs(logs, bytes).len() <= MAX_LOG_BYTES,
        bytes.len() <= MAX_LOG_BYTES ==> appended_logs(logs, bytes).subrange(
            appended_logs(logs, bytes).len() - bytes.len(),
            appended_logs(logs, bytes).len() as int,
        ) == bytes,
        logs.len() + bytes.len() <= MAX_LOG_BYTES ==> appended_logs(logs, bytes) == logs + bytes,
{
    let c = logs + bytes;
    let r = appended_logs(logs, bytes);
    if bytes.len() <= MAX_LOG_BYTES {
        assert(r.subrange(r.len() - bytes.len(), r.len() as int) =~= bytes);
    }
}

/// Law: abort is permanent: no match command clears it.
pub proof fn law_abort_is_sticky(h: ControlView, cmd: MatchCommand)
    requires
        h.aborted,
    ensures
        command_effect(h, cmd).aborted,
{
}

/// Law: pausing and then resuming a running match restores its controls.
pub proof fn law_pause_resume_roundtrip(h: ControlView)
    requires
        !h.paused,
    ensures
        command_effect(command_effect(h, MatchCommand::Pause), MatchCommand::Resume) == h,
        command_effect(h, MatchCommand::Pause).tick_count == h.tick_count,
{
}

/// Law: an empty facilitator password never grants admin access.
pub proof fn law_empty_password_locks_admin(header: Option<Seq<char>>)
    ensures
        !facilitator_auth_ok(header, Seq::<char>::empty()),
{
}

/// Law: only `Facilitator <password>` grants admin access; in particular a
/// `Bearer` header never does.
pub proof fn law_bearer_is_not_facilitator(token: Seq<char>, password: Seq<char>)
    ensures
        !facilitator_auth_ok(Some("Bearer "@ + token), password),
{
    reveal_strlit("Bearer ");
    reveal_strlit("Facilitator ");
    let h = "Bearer "@ + token;
    if h.len() >= 12 {
        assert(h[0] == 'B');
        assert(h.subrange(0, 12)[0] == 'B');
        assert("Facilitator "@[0] == 'F');
    }
}

/// Law: a live roster always has at least two teams and starts with the
/// connected teams in their order.
pub proof fn law_live_roster_has_two_slots(connected: Seq<Seq<char>>)
    ensures
        live_teams_spec(connected).len() >= 2,
        live_teams_spec(connected).subrange(0, connected.len() as int) == connected,
{
    reveal_strlit("team-a");
    reveal_strlit("team-b");
    let s1 = if connected.len() >= 2 || connected.contains(placeholder_a()) {
        connected
    } else {
        connected.push(placeholder_a())
    };
    if connected.len() == 1 && connected.contains(placeholder_a()) {
        assert(connected[0] == placeholder_a());
        assert(!connected.contains(placeholder_b())) by {
            if connected.contains(placeholder_b()) {
                assert(connected[0] == placeholder_b());
                assert(placeholder_a()[5] != placeholder_b()[5]);
            }
        }
    }
    if connected.len() == 0 {
        assert(s1 =~= seq![placeholder_a()]);
        assert(!s1.contains(placeholder_b())) by {
            if s1.contains(placeholder_b()) {
                assert(placeholder_a()[5] != placeholder_b()[5]);
            }
        }
    }
    if connected.len() == 1 && !connected.contains(placeholder_a()) {
        assert(s1.len() == 2);
    }
    assert(live_teams_spec(connected).subrange(0, connected.len() as int) =~= connected);
}

/// Law: a header is stripped of a prefix exactly when it starts with it, and
/// putting the prefix back gives the header.
pub proof fn law_strip_prefix_inverse(s: Seq<char>, prefix: Seq<char>)
    ensures
        strip_prefix_spec(prefix + s, prefix) == Some(s),
        strip_prefix_spec(s, prefix) matches Some(rest) ==> prefix + rest == s,
{
    assert((prefix + s).subrange(0, prefix.len() as int) =~= prefix);
    assert((prefix + s).subrange(prefix.len() as int, (prefix + s).len() as int) =~= s);
    if strip_prefix_spec(s, prefix) is Some {
        assert(prefix + s.subrange(prefix.len() as int, s.len() as int) =~= s);
    }
}

/// Law: a kicked team is excluded from every later match: once it is in the
/// disqualified set, its slot resolves to the built-in Default Bot whatever
/// bots it has.
pub proof fn law_kick_excludes_from_resolution(
    dq: Set<Seq<char>>,
    team: Seq<char>,
    disabled: bool,
    has_ws: bool,
    wasm_store: Map<Seq<char>, Seq<u8>>,
    default_bot: Option<Seq<u8>>,
)
    ensures
        plan_slot_spec(
            store_facts(team, dq.insert(team).contains(team), disabled, has_ws, wasm_store, default_bot),
        ) == SlotPlan::BuiltinDefault,
{
}

/// Law: disabling a team sends it to the default path, and enabling it again
/// gives it back its uploaded WASM bot (for a team in good standing with no
/// live WebSocket bot).
pub proof fn law_disable_then_enable_restores_wasm(
    disabled: Set<Seq<char>>,
    team: Seq<char>,
    wasm_store: Map<Seq<char>, Seq<u8>>,
    default_bot: Option<Seq<u8>>,
)
    requires
        wasm_store.contains_key(team),
    ensures
        plan_slot_spec(
            store_facts(team, false, disabled.insert(team).contains(team), false, wasm_store, default_bot),
        ) == (if default_bot is Some {
            SlotPlan::CustomDefault
        } else {
            SlotPlan::BuiltinDefault
        }),
        plan_slot_spec(
            store_facts(team, false, disabled.insert(team).remove(team).contains(team), false, wasm_store, default_bot),
        ) == SlotPlan::Wasm,
{
}

/// The token map and the team map after the registrations `history`, each a
/// team and the token it was given, in order, starting from an empty registry.
pub open spec fn registry_after(history: Seq<(Seq<char>, Seq<char>)>) -> (
    Map<Seq<char>, Seq<char>>,
    Map<Seq<char>, Seq<char>>,
)
    decreases history.len(),
{
    if history.len() == 0 {
        (Map::empty(), Map::empty())
    } else {
        let before = registry_after(history.drop_last());
        let (team, token) = history.last();
        (tokens_after_register(before.0, before.1, team, token), before.1.insert(team, token))
    }
}

/// `token` is the one given to `team` by its most recent registration in
/// `history`.
pub open spec fn latest_token(history: Seq<(Seq<char>, Seq<char>)>, team: Seq<char>, token: Seq<char>) -> bool {
    exists|i: int|
        #![trigger history[i]]
        0 <= i < history.len() && history[i] == (team, token) && forall|j: int|
            i < j < history.len() ==> (#[trigger] history[j]).0 != team
}

/// `team` registered at some point of `history`.
pub open spec fn ever_registered(history: Seq<(Seq<char>, Seq<char>)>, team: Seq<char>) -> bool {
    exists|i: int| 0 <= i < history.len() && (#[trigger] history[i]).0 == team
}

/// `token` was issued at some point of `history`.
pub open spec fn ever_issued(history: Seq<(Seq<char>, Seq<char>)>, token: Seq<char>) -> bool {
    exists|i: int| 0 <= i < history.len() && (#[trigger] history[i]).1 == token
}

/// No token was issued twice.
pub open spec fn tokens_distinct(history: Seq<(Seq<char>, Seq<char>)>) -> bool {
    forall|i: int, j: int|
        0 <= i < j < history.len() ==> (#[trigger] history[i]).1 != (#[trigger] history[j]).1
}

/// What holds of the registry after every history of registrations with
/// distinct tokens: its two maps are inverse to each other, hold the
/// registered teams and issued tokens only, and pair each team with its
/// latest token.
proof fn lemma_registry_history(history: Seq<(Seq<char>, Seq<char>)>)
    requires
        tokens_distinct(history),
    ensures
        forall|team: Seq<char>|
            #![trigger registry_after(history).1.contains_key(team)]
            registry_after(history).1.contains_key(team) <==> ever_registered(history, team),
        forall|team: Seq<char>, token: Seq<char>|
            #![trigger latest_token(history, team, token)]
            (registry_after(history).1.contains_key(team) && registry_after(history).1[team] == token)
                <==> latest_token(history, team, token),
        forall|token: Seq<char>|
            #![trigger registry_after(history).0.contains_key(token)]
            registry_after(history).0.contains_key(token) ==> ever_issued(history, token)
                && registry_after(history).1.contains_key(registry_after(history).0[token])
                && registry_after(history).1[registry_after(history).0[token]] == token,
        forall|team: Seq<char>|
            #![trigger registry_after(history).1.contains_key(team)]
            registry_after(history).1.contains_key(team) ==> registry_after(history).0.contains_key(
                registry_after(history).1[team],
            ) && registry_after(history).0[registry_after(history).1[team]] == team,
    decreases history.len(),
{
    if history.len() == 0 {
        return;
    }
    let prefix = history.drop_last();
    let (team0, token0) = history.last();
    let n = history.len() - 1;
    assert(history[n] == (team0, token0));
    assert forall|i: int, j: int| 0 <= i < j < prefix.len() implies (#[trigger] prefix[i]).1
        != (#[trigger] prefix[j]).1 by {
        assert(prefix[i] == history[i] && prefix[j] == history[j]);
    }
    lemma_registry_history(prefix);
    let before = registry_after(prefix);
    let after = registry_after(history);
    assert(after.1 == before.1.insert(team0, token0));
    assert(after.0 == tokens_after_register(before.0, before.1, team0, token0));
    // The new token was never issued before, so no earlier entry maps it.
    assert(!before.0.contains_key(token0)) by {
        if before.0.contains_key(token0) {
            let i = choose|i: int| 0 <= i < prefix.len() && (#[trigger] prefix[i]).1 == token0;
            assert(history[i] == prefix[i]);
            assert(history[i].1 != history[n].1);
        }
    }
    assert forall|team: Seq<char>|
        #![trigger after.1.contains_key(team)]
        after.1.contains_key(team) <==> ever_registered(history, team) by {
        if ever_registered(prefix, team) {
            let i = choose|i: int| 0 <= i < prefix.len() && (#[trigger] prefix[i]).0 == team;
            assert(history[i] == prefix[i]);
        }
        if ever_registered(history, team) && team != team0 {
            let i = choose|i: int| 0 <= i < history.len() && (#[trigger] history[i]).0 == team;
            assert(i < n);
            assert(prefix[i] == history[i]);
        }
    }
    assert forall|team: Seq<char>, token: Seq<char>|
        #![trigger latest_token(history, team, token)]
        (after.1.contains_key(team) && after.1[team] == token) <==> latest_token(history, team, token) by {
        if team == team0 {
            if token == token0 {
                assert(history[n] == (team, token));
            }
            if latest_token(history, team, token) {
                let i = choose|i: int|
                    #![trigger history[i]]
                    0 <= i < history.len() && history[i] == (team, token) && forall|j: int|
                        i < j < history.len() ==> (#[trigger] history[j]).0 != team;
                if i < n {
                    assert(history[n].0 != team);
                }
            }
        } else {
            if latest_token(prefix, team, token) {
                let i = choose|i: int|
                    #![trigger prefix[i]]
                    0 <= i < prefix.len() && prefix[i] == (team, token) && forall|j: int|
                        i < j < prefix.len() ==> (#[trigger] prefix[j]).0 != team;
                assert(history[i] == prefix[i]);
                assert forall|j: int| i < j < history.len() implies (#[trigger] history[j]).0 != team by {
                    if j < n {
                        assert(prefix[j] == history[j]);
                    }
                }
            }
            if latest_token(history, team, token) {
                let i = choose|i: int|
                    #![trigger history[i]]
                    0 <= i < history.len() && history[i] == (team, token) && forall|j: int|
                        i < j < history.len() ==> (#[trigger] history[j]).0 != team;
                assert(i < n);
                assert(prefix[i] == history[i]);
                assert forall|j: int| i < j < prefix.len() implies (#[trigger] prefix[j]).0 != team by {
                    assert(prefix[j] == history[j]);
                }
                assert(latest_token(prefix, team, token));
            }
        }
    }
    assert forall|token: Seq<char>|
        #![trigger after.0.contains_key(token)]
        after.0.contains_key(token) implies ever_issued(history, token) && after.1.contains_key(
            after.0[token],
        ) && after.1[after.0[token]] == token by {
        if token == token0 {
            assert(history[n].1 == token0);
        } else {
            assert(before.0.contains_key(token));
            let team = before.0[token];
            assert(before.1.contains_key(team) && before.1[team] == token);
            if before.1.contains_key(team0) {
                assert(token != before.1[team0]);
            }
            assert(team != team0);
            let i = choose|i: int| 0 <= i < prefix.len() && (#[trigger] prefix[i]).1 == token;
            assert(history[i] == prefix[i]);
        }
    }
    assert forall|team: Seq<char>|
        #![trigger after.1.contains_key(team)]
        after.1.contains_key(team) implies after.0.contains_key(after.1[team])
            && after.0[after.1[team]] == team by {
        if team != team0 {
            let token = before.1[team];
            assert(before.0.contains_key(token) && before.0[token] == team);
            assert(token != token0);
            if before.1.contains_key(team0) {
                assert(before.0[before.1[team0]] == team0);
                assert(token != before.1[team0]);
            }
        }
    }
}

/// Law: after any history of registrations whose tokens are all distinct
/// (as fresh random tokens are), a token resolves to a team exactly when it
/// is the token of that team's most recent registration: tokens never issued,
/// and tokens replaced by a later registration of the same team, resolve to
/// nothing, and registering other teams revokes nothing.
pub proof fn law_token_resolves_to_latest_registration(
    history: Seq<(Seq<char>, Seq<char>)>,
    token: Seq<char>,
    team: Seq<char>,
)
    requires
        tokens_distinct(history),
    ensures
        (registry_after(history).0.contains_key(token) && registry_after(history).0[token] == team)
            <==> latest_token(history, team, token),
{
    lemma_registry_history(history);
    let after = registry_after(history);
    if after.0.contains_key(token) && after.0[token] == team {
        assert(after.1.contains_key(team) && after.1[team] == token);
        assert(latest_token(history, team, token));
    }
    if latest_token(history, team, token) {
        assert(after.1.contains_key(team) && after.1[team] == token);
    }
}

/// Law: after any history of registrations, the registered teams are exactly
/// the teams that registered, each once, whatever the tokens.
pub proof fn law_registered_teams_are_the_registrants(history: Seq<(Seq<char>, Seq<char>)>, team: Seq<char>)
    ensures
        registry_after(history).1.contains_key(team) <==> ever_registered(history, team),
    decreases history.len(),
{
    if history.len() > 0 {
        let prefix = history.drop_last();
        let n = history.len() - 1;
        law_registered_teams_are_the_registrants(prefix, team);
        if ever_registered(prefix, team) {
            let i = choose|i: int| 0 <= i < prefix.len() && (#[trigger] prefix[i]).0 == team;
            assert(history[i] == prefix[i]);
        }
        if ever_registered(history, team) && history[n].0 != team {
            let i = choose|i: int| 0 <= i < history.len() && (#[trigger] history[i]).0 == team;
            assert(prefix[i] == history[i]);
        }
    }
}

/// The disqualified teams after the disqualifications `kicked`, in order,
/// starting from an empty store.
pub open spec fn disqualified_after(kicked: Seq<Seq<char>>) -> Set<Seq<char>>
    decreases kicked.len(),
{
    if kicked.len() == 0 {
        Set::empty()
    } else {
        disqualified_after(kicked.drop_last()).insert(kicked.last())
    }
}

/// Law: after any history of disqualifications, a team is disqualified
/// exactly when it was kicked at some point, and it stays disqualified for
/// the rest of the history.
pub proof fn law_disqualified_are_the_kicked(kicked: Seq<Seq<char>>, team: Seq<char>, later: int)
    requires
        0 <= later <= kicked.len(),
    ensures
        disqualified_after(kicked).contains(team) <==> kicked.contains(team),
        disqualified_after(kicked.subrange(0, later)).contains(team) ==> disqualified_after(
            kicked,
        ).contains(team),
    decreases kicked.len(),
{
    if kicked.len() > 0 {
        let prefix = kicked.drop_last();
        if later == kicked.len() {
            assert(kicked.subrange(0, later) =~= kicked);
            law_disqualified_are_the_kicked(prefix, team, prefix.len() as int);
        } else {
            assert(kicked.subrange(0, later) =~= prefix.subrange(0, later));
            law_disqualified_are_the_kicked(prefix, team, later);
        }
        if prefix.contains(team) {
            let i = choose|i: int| 0 <= i < prefix.len() && prefix[i] == team;
            assert(kicked[i] == team);
        }
        if kicked.contains(team) && kicked.last() != team {
            let i = choose|i: int| 0 <= i < kicked.len() && kicked[i] == team;
            assert(prefix[i] == team);
        }
    }
}

/// Law: a match's tick count is the number of ticks counted since its
/// controls were created, modulo 2^32; counting never changes pause, abort
/// or rate.
pub proof fn law_tick_count_counts_increments(v: ControlView, n: nat)
    requires
        v.tick_count == 0,
    ensures
        incremented_times(v, n).tick_count == n % 0x1_0000_0000,
        incremented_times(v, n).paused == v.paused,
        incremented_times(v, n).aborted == v.aborted,
        incremented_times(v, n).tps == v.tps,
    decreases n,
{
    if n > 0 {
        law_tick_count_counts_increments(v, (n - 1) as nat);
        let m = (n - 1) as nat;
        if m % 0x1_0000_0000 == 0xffff_ffff {
            assert(n % 0x1_0000_0000 == 0) by (nonlinear_arith)
                requires
                    m % 0x1_0000_0000 == 0xffff_ffff,
                    n == m + 1,
            ;
        } else {
            assert(n % 0x1_0000_0000 == m % 0x1_0000_0000 + 1) by (nonlinear_arith)
                requires
                    m % 0x1_0000_0000 != 0xffff_ffff,
                    n == m + 1,
            ;
        }
    }
}

/// One operation on the registry of live matches, addressed to a match id:
/// what `register`, `apply`, `count_tick` and `remove` do.
pub enum ControlOp {
    Register { id: Seq<char>, controls: ControlView },
    Command { id: Seq<char>, cmd: MatchCommand },
    CountTick { id: Seq<char> },
    Remove { id: Seq<char> },
}

/// The match an operation is addressed to.
pub open spec fn op_id(op: ControlOp) -> Seq<char> {
    match op {
        ControlOp::Register { id, .. } => id,
        ControlOp::Command { id, .. } => id,
        ControlOp::CountTick { id } => id,
        ControlOp::Remove { id } => id,
    }
}

/// The registry after one operation, as the registry's methods state it.
pub open spec fn apply_op(m: Map<Seq<char>, ControlView>, op: ControlOp) -> Map<Seq<char>, ControlView> {
    match op {
        ControlOp::Register { id, controls } => m.insert(id, controls),
        ControlOp::Command { id, cmd } => if m.contains_key(id) {
            m.insert(id, command_effect(m[id], cmd))
        } else {
            m
        },
        ControlOp::CountTick { id } => if m.contains_key(id) {
            m.insert(id, incremented(m[id]))
        } else {
            m
        },
        ControlOp::Remove { id } => m.remove(id),
    }
}

/// The registry after the operations `ops`, in order, from an empty one.
pub open spec fn registry_after_ops(ops: Seq<ControlOp>) -> Map<Seq<char>, ControlView>
    decreases ops.len(),
{
    if ops.len() == 0 {
        Map::empty()
    } else {
        apply_op(registry_after_ops(ops.drop_last()), ops.last())
    }
}

/// The controls of match `id` after the operations `ops`, looking only at
/// the operations addressed to `id`.
pub open spec fn controls_after(ops: Seq<ControlOp>, id: Seq<char>) -> Option<ControlView>
    decreases ops.len(),
{
    if ops.len() == 0 {
        None
    } else {
        let before = controls_after(ops.drop_last(), id);
        let op = ops.last();
        if op_id(op) != id {
            before
        } else {
            match op {
                ControlOp::Register { controls, .. } => Some(controls),
                ControlOp::Command { cmd, .. } => match before {
                    Some(c) => Some(command_effect(c, cmd)),
                    None => None,
                },
                ControlOp::CountTick { .. } => match before {
                    Some(c) => Some(incremented(c)),
                    None => None,
                },
                ControlOp::Remove { .. } => None,
            }
        }
    }
}

/// Law: the registry is one shared state per match.  After any sequence of
/// registrations, commands, counted ticks and removals, the controls of a
/// match are exactly those obtained by applying, in order, the operations
/// addressed to its id (operations on other matches never touch them), and
/// the live loop of the match decides from those controls.
pub proof fn law_registry_is_the_shared_state(ops: Seq<ControlOp>, id: Seq<char>, match_over: bool)
    ensures
        controls_of(registry_after_ops(ops), id) == controls_after(ops, id),
        live_action_spec(match_over, controls_of(registry_after_ops(ops), id)) == live_action_spec(
            match_over,
            controls_after(ops, id),
        ),
    decreases ops.len(),
{
    if ops.len() > 0 {
        law_registry_is_the_shared_state(ops.drop_last(), id, match_over);
    }
}

/// The number of ticks counted for `id` since it was last registered (0 when
/// it is not registered).
pub open spec fn ticks_counted(ops: Seq<ControlOp>, id: Seq<char>) -> nat
    decreases ops.len(),
{
    if ops.len() == 0 {
        0
    } else {
        let before = ticks_counted(ops.drop_last(), id);
        match ops.last() {
            ControlOp::Register { id: i, .. } => if i == id {
                0
            } else {
                before
            },
            ControlOp::Remove { id: i } => if i == id {
                0
            } else {
                before
            },
            ControlOp::CountTick { id: i } => if i == id {
                before + 1
            } else {
                before
            },
            ControlOp::Command { .. } => before,
        }
    }
}

/// Whether `id` has been aborted since it was last registered (or was
/// registered aborted).
pub open spec fn aborted_since_registered(ops: Seq<ControlOp>, id: Seq<char>) -> bool
    decreases ops.len(),
{
    if ops.len() == 0 {
        false
    } else {
        let before = aborted_since_registered(ops.drop_last(), id);
        match ops.last() {
            ControlOp::Register { id: i, controls } => if i == id {
                controls.aborted
            } else {
                before
            },
            ControlOp::Command { id: i, cmd } => if i == id && cmd is Abort {
                true
            } else {
                before
            },
            _ => before,
        }
    }
}

/// Law: every tick counted through the registry for a match is seen by
/// every later reader: while the match stays registered, its tick count is
/// its registered count plus the ticks counted since, modulo 2^32.  An abort
/// through the registry is never undone until the match is registered anew,
/// and an aborted match's live loop finishes.
pub proof fn law_registered_controls_see_every_operation(
    ops: Seq<ControlOp>,
    id: Seq<char>,
    registered: ControlView,
    match_over: bool,
)
    requires
        exists|i: int|
            0 <= i < ops.len() && #[trigger] ops[i] == (ControlOp::Register { id, controls: registered })
                && forall|j: int|
                i < j < ops.len() ==> !(#[trigger] ops[j] is Register) || op_id(ops[j]) != id,
    ensures
        controls_after(ops, id) matches Some(c) ==> c.tick_count == (registered.tick_count + ticks_counted(
            ops,
            id,
        )) % 0x1_0000_0000 && c.aborted == aborted_since_registered(ops, id),
        aborted_since_registered(ops, id) ==> live_action_spec(
            match_over,
            controls_of(registry_after_ops(ops), id),
        ) == LiveAction::Finish,
    decreases ops.len(),
{
    law_registry_is_the_shared_state(ops, id, match_over);
    let n = ops.len() - 1;
    let prefix = ops.drop_last();
    let i = choose|i: int|
        0 <= i < ops.len() && #[trigger] ops[i] == (ControlOp::Register { id, controls: registered })
            && forall|j: int| i < j < ops.len() ==> !(#[trigger] ops[j] is Register) || op_id(ops[j]) != id;
    if i == n {
        assert(ops.last() == (ControlOp::Register { id, controls: registered }));
        assert(registered.tick_count < 0x1_0000_0000);
    } else {
        assert(prefix[i] == ops[i]);
        assert forall|j: int| i < j < prefix.len() implies !(#[trigger] prefix[j] is Register) || op_id(
            prefix[j],
        ) != id by {
            assert(prefix[j] == ops[j]);
        }
        law_registered_controls_see_every_operation(prefix, id, registered, match_over);
        let last = ops.last();
        assert(last == ops[n]);
        if op_id(last) == id {
            match last {
                ControlOp::CountTick { .. } => {
                    if let Some(c) = controls_after(prefix, id) {
                        let t = ticks_counted(prefix, id);
                        let b = registered.tick_count as int;
                        assert(c.tick_count == (b + t) % 0x1_0000_0000);
                        if c.tick_count == u32::MAX {
                            assert((b + t + 1) % 0x1_0000_0000 == 0) by (nonlinear_arith)
                                requires
                                    (b + t) % 0x1_0000_0000 == 0xffff_ffff,
                            ;
                        } else {
                            assert((b + t + 1) % 0x1_0000_0000 == (b + t) % 0x1_0000_0000 + 1)
                                by (nonlinear_arith)
                                requires
                                    (b + t) % 0x1_0000_0000 != 0xffff_ffff,
                                    (b + t) >= 0,
                            ;
                        }
                    }
                },
                _ => {},
            }
        }
    }
}

} // verus!
