use serenade::session::session::Session;
use serenade::session::store::{MemorySessionStore, SessionStore};

#[test]
fn session_attributes_and_flags() {
    let mut session = Session::new("sid");
    assert_eq!(session.id(), "sid");
    assert!(session.is_new());
    assert!(!session.is_invalidated());
    session.set("user", "alice");
    assert_eq!(session.get("user"), Some("alice"));
    assert_eq!(session.remove("user"), Some("alice".to_owned()));
    assert_eq!(session.get("user"), None);
    session.invalidate();
    assert!(session.is_invalidated());
}

#[test]
fn memory_store_saves_loads_and_deletes() {
    let mut store = MemorySessionStore::new();
    let mut session = Session::new("abc");
    session.set("cart", "3");
    store.save("abc", &session.take_for_save()).expect("save");
    let loaded = store.load("abc").expect("load").expect("present");
    let restored = Session::existing("abc", loaded);
    assert!(!restored.is_new());
    assert!(!restored.is_dirty());
    assert_eq!(restored.get("cart"), Some("3"));
    store.delete("abc").expect("delete");
    assert!(store.load("abc").expect("load").is_none());
    assert!(store.load("").is_err());
}
