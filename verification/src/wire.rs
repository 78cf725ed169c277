use vstd::prelude::*;

verus! {

/// Protocol version emitted in the `welcome` message.
pub open spec fn protocol_version() -> Seq<char> {
    "1"@
}

/// Game-type tag emitted in the `welcome` message.
pub open spec fn game_type() -> Seq<char> {
    "ShatterbeltSalvagers"@
}

/// Sent immediately on WebSocket connection.
pub struct WelcomeMsg {
    pub type_: String,
    pub protocol_version: String,
    pub session_id: String,
    pub game_type: String,
}

impl WelcomeMsg {
    /// The `welcome` message for a new session.
    pub fn new(session_id: String) -> (m: Self)
        ensures
            m.type_@ == "welcome"@,
            m.protocol_version@ == protocol_version(),
            m.session_id@ == session_id@,
            m.game_type@ == game_type(),
    {
        WelcomeMsg {
            type_: "welcome".to_owned(),
            protocol_version: "1".to_owned(),
            session_id,
            game_type: "ShatterbeltSalvagers".to_owned(),
        }
    }
}

/// Sent after successful token validation; `ship_id` is the team name.
pub struct AssignedMsg {
    pub type_: String,
    pub ship_id: String,
}

impl AssignedMsg {
    /// The `assigned` message for `team`.
    pub fn new(team: String) -> (m: Self)
        ensures
            m.type_@ == "assigned"@,
            m.ship_id@ == team@,
    {
        AssignedMsg { type_: "assigned".to_owned(), ship_id: team }
    }
}

/// Sent to every connected bot of the roster when a match begins.
pub struct MatchStartMsg {
    pub type_: String,
}

impl MatchStartMsg {
    /// The `matchStart` message.
    pub fn new() -> (m: Self)
        ensures
            m.type_@ == "matchStart"@,
    {
        MatchStartMsg { type_: "matchStart".to_owned() }
    }
}

/// First message from the bot after connecting.
pub struct JoinMsg {
    pub session_id: String,
    pub token: String,
    pub name: String,
    pub preferred_class: Option<String>,
}

/// Body of `POST /admin/matches`.
pub struct StartMatchRequest {
    pub mode: String,
    pub seed: Option<u64>,
    pub max_ticks: Option<u32>,
    pub teams: Option<Vec<String>>,
    pub tps: Option<u32>,
}

/// Body of `POST /admin/matches/{id}/tps`.
pub struct SetTpsRequest {
    pub tps: u32,
}

/// Query of `POST /admin/exhibition/start`.
pub struct ExhibitionStartQuery {
    pub tps: Option<u32>,
}

/// The tick rate a request asks for, 30 when it names none.
pub fn requested_tps(tps: Option<u32>) -> (r: u32)
    ensures
        r == match tps {
            Some(t) => t,
            None => 30u32,
        },
{
    match tps {
        Some(t) => t,
        None => 30,
    }
}

} // verus!
