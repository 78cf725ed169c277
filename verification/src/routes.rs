use vstd::prelude::*;
use vstd::string::*;

use crate::auth::{extract_bearer_token, header_text, is_uuid_v4_text, tokens_after_register, TokenRegistry};
use crate::store::{is_wasm_artifact, is_wasm_artifact_spec, WasmBotStore};
use crate::text::{str_eq, strip_prefix_spec};

verus! {

/// Whether a character has the Unicode `White_Space` property: tab, line
/// feed, vertical tab, form feed, carriage return, space, next line,
/// no-break space, ogham space mark, the spaces U+2000 to U+200A, line and
/// paragraph separators, narrow no-break space, medium mathematical space and
/// ideographic space.
pub open spec fn unicode_white_space(c: char) -> bool {
    let u = c as u32;
    ||| 0x09 <= u <= 0x0d
    ||| u == 0x20
    ||| u == 0x85
    ||| u == 0xa0
    ||| u == 0x1680
    ||| 0x2000 <= u <= 0x200a
    ||| u == 0x2028
    ||| u == 0x2029
    ||| u == 0x202f
    ||| u == 0x205f
    ||| u == 0x3000
}

/// Whether `c` is white space (`char::is_whitespace`).
pub fn is_white_space(c: char) -> (b: bool)
    ensures
        b == unicode_white_space(c),
{
    let u = c as u32;
    (0x09 <= u && u <= 0x0d) || u == 0x20 || u == 0x85 || u == 0xa0 || u == 0x1680 || (0x2000
        <= u && u <= 0x200a) || u == 0x2028 || u == 0x2029 || u == 0x202f || u == 0x205f || u
        == 0x3000
}

/// A text is blank when every character is white space (so `trim` leaves
/// nothing).
pub open spec fn is_blank_spec(s: Seq<char>) -> bool {
    forall|i: int| 0 <= i < s.len() ==> unicode_white_space(#[trigger] s[i])
}

/// Whether `s` is empty after trimming white space.
pub fn is_blank(s: &str) -> (r: bool)
    ensures
        r == is_blank_spec(s@),
{
    let n = s.unicode_len();
    let mut i: usize = 0;
    while i < n
        invariant
            n == s@.len(),
            0 <= i <= n,
            forall|j: int| 0 <= j < i ==> unicode_white_space(#[trigger] s@[j]),
        decreases n - i,
    {
        if !is_white_space(s.get_char(i)) {
            return false;
        }
        i = i + 1;
    }
    true
}

/// `POST /register`: exchange the event password and a team name for a token.
///
/// `Err(401)` for a wrong password, `Err(422)` for a blank team name (both
/// leave the registry unchanged); otherwise the team is (re-)registered and
/// the new token returned.
pub fn register_team(
    registry: &mut TokenRegistry,
    event_password: &str,
    password: &str,
    team: &str,
) -> (r: Result<String, u16>)
    requires
        old(registry).wf(),
    ensures
        final(registry).wf(),
        password@ != event_password@ ==> r == Err::<String, u16>(401) && *final(registry) == *old(registry),
        password@ == event_password@ && is_blank_spec(team@) ==> r == Err::<String, u16>(422)
            && *final(registry) == *old(registry),
        password@ == event_password@ && !is_blank_spec(team@) ==> r is Ok && is_uuid_v4_text(r->Ok_0@)
            && final(registry).team_map() == old(registry).team_map().insert(team@, r->Ok_0@)
            && final(registry).token_map() == tokens_after_register(
            old(registry).token_map(),
            old(registry).team_map(),
            team@,
            r->Ok_0@,
        ),
{
    if !str_eq(password, event_password) {
        return Err(401);
    }
    if is_blank(team) {
        return Err(422);
    }
    let token = registry.register(team);
    Ok(token)
}

/// What became of a `POST /bots` upload.
#[derive(Clone, Copy, Debug, PartialEq, Eq, Structural)]
pub enum UploadOutcome {
    /// The artifact was stored for the token's team: 200.
    Stored,
    /// No `Authorization: Bearer <token>` header: 401.
    MissingToken,
    /// The bearer token resolves to no team: 401.
    UnknownToken,
    /// The body is not a WASM artifact: 400.
    NotWasm,
}

impl UploadOutcome {
    /// The HTTP status of the outcome.
    pub fn status(&self) -> (s: u16)
        ensures
            s == (match *self {
                UploadOutcome::Stored => 200u16,
                UploadOutcome::MissingToken => 401u16,
                UploadOutcome::UnknownToken => 401u16,
                UploadOutcome::NotWasm => 400u16,
            }),
    {
        match self {
            UploadOutcome::Stored => 200,
            UploadOutcome::MissingToken => 401,
            UploadOutcome::UnknownToken => 401,
            UploadOutcome::NotWasm => 400,
        }
    }

    /// The `"error"` text of the JSON body of a refused upload.
    pub fn error_text(&self) -> (t: Option<&'static str>)
        ensures
            *self == UploadOutcome::Stored ==> t is None,
            *self == UploadOutcome::MissingToken ==> (t matches Some(m) && m@
                == "missing or malformed Authorization header; expected: Bearer <token>"@),
            *self == UploadOutcome::UnknownToken ==> (t matches Some(m) && m@
                == "invalid or revoked token"@),
            *self == UploadOutcome::NotWasm ==> (t matches Some(m) && m@
                == "body must be a valid WASM artifact (missing magic bytes \\0asm)"@),
    {
        match self {
            UploadOutcome::Stored => None,
            UploadOutcome::MissingToken => Some(
                "missing or malformed Authorization header; expected: Bearer <token>",
            ),
            UploadOutcome::UnknownToken => Some("invalid or revoked token"),
            UploadOutcome::NotWasm => Some(
                "body must be a valid WASM artifact (missing magic bytes \\0asm)",
            ),
        }
    }
}

/// `POST /bots`: a team uploads (or replaces) its WASM artifact.
///
/// Refused when `Authorization: Bearer <token>` is missing, when its token
/// resolves to no team, and when the body is not a WASM artifact (in that
/// order); otherwise the artifact is stored for the token's team.
pub fn upload_bot(
    registry: &TokenRegistry,
    store: &mut WasmBotStore,
    auth_header: Option<&str>,
    body: Vec<u8>,
) -> (r: UploadOutcome)
    requires
        registry.wf(),
        old(store).wf(),
    ensures
        final(store).wf(),
        ({
            let token = match header_text(auth_header) {
                Some(h) => strip_prefix_spec(h, "Bearer "@),
                None => None,
            };
            if token is None {
                r == UploadOutcome::MissingToken && final(store)@ == old(store)@
            } else if !registry.token_map().contains_key(token->0) {
                r == UploadOutcome::UnknownToken && final(store)@ == old(store)@
            } else if !is_wasm_artifact_spec(body@) {
                r == UploadOutcome::NotWasm && final(store)@ == old(store)@
            } else {
                r == UploadOutcome::Stored && final(store)@ == old(store)@.insert(
                    registry.token_map()[token->0],
                    body@,
                )
            }
        }),
{
    let token = match extract_bearer_token(auth_header) {
        Some(t) => t,
        None => {
            return UploadOutcome::MissingToken;
        },
    };
    let team = match registry.resolve(token.as_str()) {
        Some(t) => t,
        None => {
            return UploadOutcome::UnknownToken;
        },
    };
    if !is_wasm_artifact(body.as_slice()) {
        return UploadOutcome::NotWasm;
    }
    store.store(team.as_str(), body);
    UploadOutcome::Stored
}

} // verus!
