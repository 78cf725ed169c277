use arena_server::keyed::StrMap;
use arena_server::store::{copy_bytes, is_wasm_artifact, DefaultBotStore, DisabledStore, StrSet, WasmBotStore};
use arena_server::text::{sort_texts, str_eq, strip_prefix, text_le_exec};

#[test]
fn wasm_magic_is_required() {
    assert!(is_wasm_artifact(&[0x00, 0x61, 0x73, 0x6d]));
    assert!(is_wasm_artifact(&[0x00, 0x61, 0x73, 0x6d, 0x01, 0x00, 0x00, 0x00]));
    assert!(!is_wasm_artifact(&[]));
    assert!(!is_wasm_artifact(&[0x00, 0x61, 0x73]));
    assert!(!is_wasm_artifact(b"wasm"));
    assert!(!is_wasm_artifact(&[0x01, 0x61, 0x73, 0x6d]));
}

#[test]
fn upload_replaces_previous_artifact() {
    let mut store = WasmBotStore::new();
    store.store("red", vec![1, 2, 3]);
    store.store("red", vec![4, 5]);
    assert_eq!(store.get("red"), Some(vec![4, 5]));
}

#[test]
fn artifacts_are_isolated_per_team() {
    let mut store = WasmBotStore::new();
    store.store("red", vec![1]);
    store.store("blue", vec![2]);
    assert_eq!(store.get("red"), Some(vec![1]));
    assert_eq!(store.get("blue"), Some(vec![2]));
    assert_eq!(store.get("green"), None);
    let mut teams = store.stored_teams();
    teams.sort();
    assert_eq!(teams, vec!["blue".to_owned(), "red".to_owned()]);
}

#[test]
fn disable_then_enable_restores_the_team() {
    let mut d = DisabledStore::new();
    assert!(!d.is_disabled("red"));
    d.disable("red");
    assert!(d.is_disabled("red"));
    assert!(!d.is_disabled("blue"));
    d.enable("red");
    assert!(!d.is_disabled("red"));
}

#[test]
fn enabling_a_team_never_disabled_is_harmless() {
    let mut d = DisabledStore::new();
    d.enable("red");
    assert!(!d.is_disabled("red"));
}

#[test]
fn default_bot_store_set_get_clear() {
    let mut s = DefaultBotStore::new();
    assert_eq!(s.get(), None);
    s.set(vec![0, 97, 115, 109]);
    assert_eq!(s.get(), Some(vec![0, 97, 115, 109]));
    s.set(vec![9]);
    assert_eq!(s.get(), Some(vec![9]));
    s.clear();
    assert_eq!(s.get(), None);
}

#[test]
fn string_set_insert_remove() {
    let mut s = StrSet::new();
    s.insert("a");
    s.insert("a");
    s.insert("b");
    assert!(s.contains("a") && s.contains("b"));
    s.remove("a");
    assert!(!s.contains("a"));
    assert!(s.contains("b"));
}

#[test]
fn copy_bytes_is_exact() {
    let v = vec![7u8, 0, 255];
    assert_eq!(copy_bytes(&v), v);
    assert_eq!(copy_bytes(&Vec::new()), Vec::<u8>::new());
}

#[test]
fn keyed_map_insert_get_remove() {
    let mut m: StrMap<u32> = StrMap::new();
    assert_eq!(m.len(), 0);
    m.insert("x".to_owned(), 1);
    m.insert("y".to_owned(), 2);
    m.insert("x".to_owned(), 3);
    assert_eq!(m.len(), 2);
    assert_eq!(m.get("x"), Some(&3));
    assert!(m.contains_key("y"));
    assert_eq!(m.remove("y"), Some(2));
    assert_eq!(m.remove("y"), None);
    assert!(!m.contains_key("y"));
    assert_eq!(m.keys(), vec!["x".to_owned()]);
    assert_eq!(m.values(), vec![&3]);
}

#[test]
fn strip_prefix_cases() {
    assert_eq!(strip_prefix("Bearer tok", "Bearer "), Some("tok".to_owned()));
    assert_eq!(strip_prefix("Bear", "Bearer "), None);
    assert_eq!(strip_prefix("abc", ""), Some("abc".to_owned()));
    assert_eq!(strip_prefix("ünï", "ü"), Some("nï".to_owned()));
}

#[test]
fn prefix_then_strip_gives_back_the_rest() {
    let rest = "payload-42";
    let joined = format!("Facilitator {rest}");
    assert_eq!(strip_prefix(&joined, "Facilitator "), Some(rest.to_owned()));
}

#[test]
fn text_equality() {
    assert!(str_eq("abc", "abc"));
    assert!(!str_eq("abc", "abd"));
    assert!(!str_eq("abc", "ab"));
}

#[test]
fn text_order_is_byte_order() {
    assert!(text_le_exec("a", "b"));
    assert!(text_le_exec("a", "a"));
    assert!(text_le_exec("", "a"));
    assert!(text_le_exec("ab", "abc"));
    assert!(!text_le_exec("b", "a"));
    assert!(text_le_exec("Z", "a"));
    assert!(text_le_exec("z", "é"));
}

#[test]
fn sort_texts_sorts_like_std() {
    let input: Vec<String> = vec!["pear", "apple", "Zed", "apple", "émile", ""].into_iter().map(String::from).collect();
    let mut expected = input.clone();
    expected.sort();
    assert_eq!(sort_texts(input), expected);
}
