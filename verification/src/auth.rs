use vstd::prelude::*;

use crate::keyed::StrMap;
use crate::text::{str_eq, strip_prefix, strip_prefix_spec};

verus! {

/// A lower-case hexadecimal digit.
pub open spec fn is_lower_hex(c: char) -> bool {
    ('0' <= c && c <= '9') || ('a' <= c && c <= 'f')
}

/// The text of a version-4 UUID in hyphenated lower-case form:
/// `xxxxxxxx-xxxx-4xxx-Yxxx-xxxxxxxxxxxx`, with `Y` one of `8`, `9`, `a`, `b`.
pub open spec fn is_uuid_v4_text(t: Seq<char>) -> bool {
    &&& t.len() == 36
    &&& forall|i: int|
        0 <= i < 36 ==> if i == 8 || i == 13 || i == 18 || i == 23 {
            t[i] == '-'
        } else {
            is_lower_hex(#[trigger] t[i])
        }
    &&& t[14] == '4'
    &&& (t[19] == '8' || t[19] == '9' || t[19] == 'a' || t[19] == 'b')
}

/// A fresh random team token (a hyphenated UUID v4).
///
/// Calls `uuid::Uuid::new_v4` and renders it with `to_string`.  The token is
/// random; what every outcome has in common is its form: `new_v4` fixes the
/// version nibble to 4 and the variant bits to `10`, and `to_string` writes
/// the hyphenated lower-case form.
#[verifier::external_body]
fn new_token() -> (t: String)
    ensures
        is_uuid_v4_text(t@),
{
    uuid::Uuid::new_v4().to_string()
}

/// Issues and resolves per-team tokens.
///
/// A team that re-registers receives a new token; its previous token is
/// revoked.
pub struct TokenRegistry {
    /// token → team identity
    tokens: StrMap<String>,
    /// team identity → current token
    team_to_token: StrMap<String>,
}

/// The text values of a map whose values are `String`s.
pub open spec fn text_values(m: Map<Seq<char>, String>) -> Map<Seq<char>, Seq<char>> {
    m.map_values(|s: String| s@)
}

/// The token map after `team` registers and gets `token`: the team's previous
/// token (if any) is revoked and the new one resolves to the team.
pub open spec fn tokens_after_register(
    tokens: Map<Seq<char>, Seq<char>>,
    teams: Map<Seq<char>, Seq<char>>,
    team: Seq<char>,
    token: Seq<char>,
) -> Map<Seq<char>, Seq<char>> {
    (if teams.contains_key(team) {
        tokens.remove(teams[team])
    } else {
        tokens
    }).insert(token, team)
}

impl TokenRegistry {
    /// Both maps are well formed.
    pub closed spec fn wf(&self) -> bool {
        self.tokens.wf() && self.team_to_token.wf()
    }

    /// token → team, as text.
    pub closed spec fn token_map(&self) -> Map<Seq<char>, Seq<char>> {
        text_values(self.tokens@)
    }

    /// team → current token, as text.
    pub closed spec fn team_map(&self) -> Map<Seq<char>, Seq<char>> {
        text_values(self.team_to_token@)
    }

    /// An empty registry.
    pub fn new() -> (r: Self)
        ensures
            r.wf(),
            r.token_map() == Map::<Seq<char>, Seq<char>>::empty(),
            r.team_map() == Map::<Seq<char>, Seq<char>>::empty(),
    {
        let r = TokenRegistry { tokens: StrMap::new(), team_to_token: StrMap::new() };
        proof {
            assert(text_values(r.tokens@) =~= Map::empty());
            assert(text_values(r.team_to_token@) =~= Map::empty());
        }
        r
    }

    /// Issue a fresh token for `team`, revoking any previous token for that team.
    pub fn register(&mut self, team: &str) -> (token: String)
        requires
            old(self).wf(),
        ensures
            final(self).wf(),
            is_uuid_v4_text(token@),
            final(self).team_map() == old(self).team_map().insert(team@, token@),
            final(self).token_map() == tokens_after_register(
                old(self).token_map(),
                old(self).team_map(),
                team@,
                token@,
            ),
    {
        let token = new_token();
        let ghost before_tokens = self.tokens@;
        let previous = match self.team_to_token.get(team) {
            Some(t) => Some(t.clone()),
            None => None,
        };
        match previous {
            Some(old_token) => {
                let _ = self.tokens.remove(old_token.as_str());
            },
            None => {},
        }
        let ghost mid_tokens = self.tokens@;
        self.tokens.insert(token.clone(), team.to_owned());
        self.team_to_token.insert(team.to_owned(), token.clone());
        proof {
            assert(text_values(self.team_to_token@) =~= text_values(
                old(self).team_to_token@,
            ).insert(team@, token@));
            if old(self).team_map().contains_key(team@) {
                assert(text_values(mid_tokens) =~= text_values(before_tokens).remove(
                    old(self).team_map()[team@],
                ));
            } else {
                assert(mid_tokens == before_tokens);
            }
            assert(text_values(self.tokens@) =~= text_values(mid_tokens).insert(token@, team@));
        }
        token
    }

    /// The team a token was issued for; `None` if unknown or revoked.
    pub fn resolve(&self, token: &str) -> (r: Option<String>)
        requires
            self.wf(),
        ensures
            match r {
                Some(team) => self.token_map().contains_key(token@) && team@ == self.token_map()[token@],
                None => !self.token_map().contains_key(token@),
            },
    {
        match self.tokens.get(token) {
            Some(t) => Some(t.clone()),
            None => None,
        }
    }

    /// Every team that has registered, each once.
    pub fn registered_teams(&self) -> (r: Vec<String>)
        requires
            self.wf(),
        ensures
            r@.len() == self.team_map().dom().len(),
            forall|i: int| 0 <= i < r@.len() ==> self.team_map().contains_key(#[trigger] r@[i]@),
            forall|k: Seq<char>|
                self.team_map().contains_key(k) ==> exists|i: int|
                    0 <= i < r@.len() && #[trigger] r@[i]@ == k,
            forall|i: int, j: int|
                0 <= i < r@.len() && 0 <= j < r@.len() && i != j ==> #[trigger] r@[i]@
                    != #[trigger] r@[j]@,
    {
        proof {
            assert(self.team_map().dom() =~= self.team_to_token@.dom());
        }
        self.team_to_token.keys()
    }
}

/// Law: a token issued to a team resolves to that team, and the team's
/// previous token (when there was one and it differs from the new one) no
/// longer resolves.
pub proof fn lemma_register_then_resolve(
    before: TokenRegistry,
    after: TokenRegistry,
    team: Seq<char>,
    token: Seq<char>,
)
    requires
        after.team_map() == before.team_map().insert(team, token),
        after.token_map() == (if before.team_map().contains_key(team) {
            before.token_map().remove(before.team_map()[team])
        } else {
            before.token_map()
        }).insert(token, team),
    ensures
        after.token_map().contains_key(token) && after.token_map()[token] == team,
        after.team_map()[team] == token,
        before.team_map().contains_key(team) && before.team_map()[team] != token
            ==> !after.token_map().contains_key(before.team_map()[team]),
{
}

/// The text of an optional header value.
pub open spec fn header_text(h: Option<&str>) -> Option<Seq<char>> {
    match h {
        Some(v) => Some(v@),
        None => None,
    }
}

/// The `Authorization` value that grants facilitator access.
pub open spec fn facilitator_auth_ok(header: Option<Seq<char>>, password: Seq<char>) -> bool {
    &&& header is Some
    &&& strip_prefix_spec(header->0, "Facilitator "@) == Some(password)
    &&& password.len() > 0
}

/// Check an `Authorization: Facilitator <password>` header value.
///
/// `header` is the header's text, `None` when it is absent or not valid text.
/// Returns `Err(401)` unless the header carries exactly the (non-empty)
/// facilitator password.
pub fn check_facilitator_auth(header: Option<&str>, facilitator_password: &str) -> (r: Result<(), u16>)
    ensures
        r is Ok <==> facilitator_auth_ok(header_text(header), facilitator_password@),
        r is Err ==> r == Err::<(), u16>(401),
{
    match header {
        None => Err(401),
        Some(value) => {
            match strip_prefix(value, "Facilitator ") {
                Some(password) => {
                    if str_eq(password.as_str(), facilitator_password) && !facilitator_password.is_empty() {
                        Ok(())
                    } else {
                        Err(401)
                    }
                },
                None => Err(401),
            }
        },
    }
}

/// Extract the token of an `Authorization: Bearer <token>` header value.
pub fn extract_bearer_token(header: Option<&str>) -> (r: Option<String>)
    ensures
        match header {
            None => r is None,
            Some(h) => match strip_prefix_spec(h@, "Bearer "@) {
                Some(t) => r is Some && r->0@ == t,
                None => r is None,
            },
        },
{
    match header {
        None => None,
        Some(value) => strip_prefix(value, "Bearer "),
    }
}

} // verus!
