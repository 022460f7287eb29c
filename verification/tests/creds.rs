use tacoshell::creds::{account, stash, unstash, Memory};

#[test]
fn accounts() {
    assert_eq!(account("crt", "example", 22), "crt@example:22");
    assert_eq!(account("", "::1", 65535), "@::1:65535");
}

#[test]
fn memory_forgets_on_relaunch() {
    let mut store = Memory::new();
    store.set("a", "b".to_string());
    assert!(store.get("a").is_some());
    assert!(Memory::new().get("a").is_none());
}

#[test]
fn memory_gives_back_what_it_got() {
    let mut store = Memory::new();
    store.set("a", "one".to_string());
    store.set("b", "two".to_string());
    store.set("a", "three".to_string());
    assert_eq!(store.get("a").as_deref(), Some("three"));
    assert_eq!(store.get("b").as_deref(), Some("two"));
    store.forget("a");
    assert!(store.get("a").is_none());
    assert_eq!(store.get("b").as_deref(), Some("two"));
}

#[test]
fn stash_round_trip() {
    let text = stash("salsa verde");
    assert!(!text.contains("salsa"));
    // base64 of "c2Fsc2EgdmVyZGU=" (which is base64 of "salsa verde")
    assert_eq!(text, "YzJGc2MyRWdkbVZ5WkdVPQ==");
    assert_eq!(unstash(&text).as_deref(), Some("salsa verde"));
    assert_eq!(unstash(&stash("")).as_deref(), Some(""));
    assert_eq!(unstash(&stash("pässwörd")).as_deref(), Some("pässwörd"));
    assert!(unstash("not base64!").is_none());
    // one layer only: decodes once, not twice
    assert!(unstash("c2Fsc2E=").is_none());
}

#[test]
fn unstash_wants_base64_twice_and_utf8() {
    // base64 of "a!": one decode gives "a!", which is no base64
    assert_eq!(unstash("YSE="), None);
    assert_eq!(unstash("not base64!"), None);
    // base64 of base64 of the byte 0xff: decodes twice, but is no UTF-8
    assert_eq!(unstash("L3c9PQ=="), None);
    assert_eq!(unstash(&stash("")), Some(String::new()));
    assert_eq!(unstash(&stash("héllo")).as_deref(), Some("héllo"));
}
