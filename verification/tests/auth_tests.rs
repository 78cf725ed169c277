use arena_server::auth::{check_facilitator_auth, extract_bearer_token, TokenRegistry};
use arena_server::routes::{is_blank, is_white_space, register_team, upload_bot, UploadOutcome};
use arena_server::store::WasmBotStore;

fn wasm_body() -> Vec<u8> {
    vec![0x00, 0x61, 0x73, 0x6d, 0x01, 0x00, 0x00, 0x00]
}

#[test]
fn registered_token_resolves_to_its_team() {
    let mut reg = TokenRegistry::new();
    let token = reg.register("red");
    assert_eq!(reg.resolve(&token), Some("red".to_owned()));
}

#[test]
fn unknown_token_does_not_resolve() {
    let mut reg = TokenRegistry::new();
    let _ = reg.register("red");
    assert_eq!(reg.resolve("not-a-token"), None);
}

#[test]
fn re_registering_revokes_the_previous_token() {
    let mut reg = TokenRegistry::new();
    let first = reg.register("red");
    let second = reg.register("red");
    assert_ne!(first, second, "a fresh token is issued");
    assert_eq!(reg.resolve(&first), None, "the old token is revoked");
    assert_eq!(reg.resolve(&second), Some("red".to_owned()));
}

#[test]
fn tokens_of_different_teams_are_independent() {
    let mut reg = TokenRegistry::new();
    let red = reg.register("red");
    let blue = reg.register("blue");
    assert_eq!(reg.resolve(&red), Some("red".to_owned()));
    assert_eq!(reg.resolve(&blue), Some("blue".to_owned()));
}

#[test]
fn registered_teams_lists_each_team_once() {
    let mut reg = TokenRegistry::new();
    let _ = reg.register("red");
    let _ = reg.register("blue");
    let _ = reg.register("red");
    let mut teams = reg.registered_teams();
    teams.sort();
    assert_eq!(teams, vec!["blue".to_owned(), "red".to_owned()]);
}

#[test]
fn token_is_a_hyphenated_uuid() {
    let mut reg = TokenRegistry::new();
    let token = reg.register("red");
    assert_eq!(token.len(), 36);
    assert_eq!(token.matches('-').count(), 4);
}

#[test]
fn facilitator_header_with_right_password_is_accepted() {
    assert_eq!(check_facilitator_auth(Some("Facilitator s3cret"), "s3cret"), Ok(()));
}

#[test]
fn facilitator_header_with_wrong_password_is_401() {
    assert_eq!(check_facilitator_auth(Some("Facilitator nope"), "s3cret"), Err(401));
}

#[test]
fn absent_facilitator_header_is_401() {
    assert_eq!(check_facilitator_auth(None, "s3cret"), Err(401));
}

#[test]
fn bearer_header_never_grants_facilitator_access() {
    assert_eq!(check_facilitator_auth(Some("Bearer s3cret"), "s3cret"), Err(401));
}

#[test]
fn empty_facilitator_password_locks_the_admin_plane() {
    assert_eq!(check_facilitator_auth(Some("Facilitator "), ""), Err(401));
    assert_eq!(check_facilitator_auth(Some("Facilitator"), ""), Err(401));
}

#[test]
fn facilitator_prefix_is_case_sensitive() {
    assert_eq!(check_facilitator_auth(Some("facilitator s3cret"), "s3cret"), Err(401));
}

#[test]
fn bearer_token_is_extracted() {
    assert_eq!(extract_bearer_token(Some("Bearer abc-123")), Some("abc-123".to_owned()));
    assert_eq!(extract_bearer_token(Some("Bearer ")), Some(String::new()));
}

#[test]
fn non_bearer_header_yields_no_token() {
    assert_eq!(extract_bearer_token(Some("Basic abc")), None);
    assert_eq!(extract_bearer_token(Some("Bearer")), None);
    assert_eq!(extract_bearer_token(None), None);
}

#[test]
fn register_with_wrong_event_password_is_401() {
    let mut reg = TokenRegistry::new();
    assert_eq!(register_team(&mut reg, "event-pw", "wrong", "red"), Err(401));
    assert!(reg.registered_teams().is_empty());
}

#[test]
fn register_with_blank_team_is_422() {
    let mut reg = TokenRegistry::new();
    assert_eq!(register_team(&mut reg, "event-pw", "event-pw", "   "), Err(422));
    assert_eq!(register_team(&mut reg, "event-pw", "event-pw", ""), Err(422));
    assert!(reg.registered_teams().is_empty());
}

#[test]
fn register_with_right_password_returns_resolvable_token() {
    let mut reg = TokenRegistry::new();
    let token = register_team(&mut reg, "event-pw", "event-pw", "red").expect("registration succeeds");
    assert_eq!(reg.resolve(&token), Some("red".to_owned()));
}

#[test]
fn blank_text_detection() {
    assert!(is_blank(""));
    assert!(is_blank(" \t\n"));
    assert!(is_blank("\u{3000}"));
    assert!(!is_blank(" a "));
}

#[test]
fn white_space_matches_std() {
    for u in 0u32..0x3100 {
        if let Some(c) = char::from_u32(u) {
            assert_eq!(is_white_space(c), c.is_whitespace(), "U+{u:04X}");
        }
    }
    assert!(!is_white_space('\u{180e}'));
    assert!(!is_white_space('\u{200b}'));
    assert!(!is_white_space('\u{feff}'));
    assert!(!is_white_space(char::MAX));
}

#[test]
fn upload_refusals_say_why() {
    let mut reg = TokenRegistry::new();
    let token = reg.register("red");
    let header = format!("Bearer {token}");
    let mut store = WasmBotStore::new();
    assert_eq!(upload_bot(&reg, &mut store, None, wasm_body()), UploadOutcome::MissingToken);
    assert_eq!(upload_bot(&reg, &mut store, Some("Token x"), wasm_body()), UploadOutcome::MissingToken);
    assert_eq!(upload_bot(&reg, &mut store, Some("Bearer unknown"), wasm_body()), UploadOutcome::UnknownToken);
    assert_eq!(upload_bot(&reg, &mut store, Some(&header), b"nope".to_vec()), UploadOutcome::NotWasm);
    assert_eq!(upload_bot(&reg, &mut store, Some(&header), wasm_body()), UploadOutcome::Stored);
    assert_eq!(
        UploadOutcome::MissingToken.error_text(),
        Some("missing or malformed Authorization header; expected: Bearer <token>")
    );
    assert_eq!(UploadOutcome::UnknownToken.error_text(), Some("invalid or revoked token"));
    assert_eq!(
        UploadOutcome::NotWasm.error_text(),
        Some("body must be a valid WASM artifact (missing magic bytes \\0asm)")
    );
    assert_eq!(UploadOutcome::Stored.error_text(), None);
    assert_eq!(UploadOutcome::Stored.status(), 200);
}

#[test]
fn upload_without_token_is_401() {
    let reg = TokenRegistry::new();
    let mut store = WasmBotStore::new();
    assert_eq!(upload_bot(&reg, &mut store, None, wasm_body()).status(), 401);
    assert_eq!(upload_bot(&reg, &mut store, Some("Bearer unknown"), wasm_body()).status(), 401);
    assert!(store.stored_teams().is_empty());
}

#[test]
fn upload_of_non_wasm_body_is_400() {
    let mut reg = TokenRegistry::new();
    let token = reg.register("red");
    let header = format!("Bearer {token}");
    let mut store = WasmBotStore::new();
    assert_eq!(upload_bot(&reg, &mut store, Some(&header), b"not wasm".to_vec()).status(), 400);
    assert_eq!(upload_bot(&reg, &mut store, Some(&header), vec![0x00, 0x61, 0x73]).status(), 400);
    assert_eq!(store.get("red"), None);
}

#[test]
fn upload_stores_artifact_under_the_token_team() {
    let mut reg = TokenRegistry::new();
    let token = reg.register("red");
    let header = format!("Bearer {token}");
    let mut store = WasmBotStore::new();
    assert_eq!(upload_bot(&reg, &mut store, Some(&header), wasm_body()).status(), 200);
    assert_eq!(store.get("red"), Some(wasm_body()));
}

#[test]
fn upload_with_revoked_token_is_401() {
    let mut reg = TokenRegistry::new();
    let old_token = reg.register("red");
    let _ = reg.register("red");
    let header = format!("Bearer {old_token}");
    let mut store = WasmBotStore::new();
    assert_eq!(upload_bot(&reg, &mut store, Some(&header), wasm_body()).status(), 401);
}

#[test]
fn history_of_registrations_resolves_only_latest_tokens() {
    let mut reg = TokenRegistry::new();
    let red1 = reg.register("red");
    let blue = reg.register("blue");
    let red2 = reg.register("red");
    let green = reg.register("green");
    assert_eq!(reg.resolve(&red1), None);
    assert_eq!(reg.resolve(&red2), Some("red".to_string()));
    assert_eq!(reg.resolve(&blue), Some("blue".to_string()));
    assert_eq!(reg.resolve(&green), Some("green".to_string()));
    assert_eq!(reg.resolve("never-issued"), None);
    let mut teams = reg.registered_teams();
    teams.sort();
    assert_eq!(teams, vec!["blue".to_string(), "green".to_string(), "red".to_string()]);
}

#[test]
fn tokens_are_hyphenated_v4_uuids() {
    let mut reg = TokenRegistry::new();
    for team in ["red", "blue", "red"] {
        let token = reg.register(team);
        let chars: Vec<char> = token.chars().collect();
        assert_eq!(chars.len(), 36);
        for (i, c) in chars.iter().enumerate() {
            if [8, 13, 18, 23].contains(&i) {
                assert_eq!(*c, '-');
            } else {
                assert!(c.is_ascii_digit() || ('a'..='f').contains(c), "{token}");
            }
        }
        assert_eq!(chars[14], '4');
        assert!(['8', '9', 'a', 'b'].contains(&chars[19]));
    }
}
