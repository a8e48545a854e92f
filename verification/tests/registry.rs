use pty_session::error::SessionError;
use pty_session::geometry::Dimensions;
use pty_session::registry::SessionRegistry;
use pty_session::session::Session;

#[test]
fn new_registry_is_empty() {
    let registry: SessionRegistry<u8> = SessionRegistry::new();
    assert!(!registry.contains("a"));
    assert!(matches!(registry.lookup("a"), Err(SessionError::SessionNotFound)));
}

#[test]
fn inserted_session_is_found_under_its_identifier() {
    let mut registry: SessionRegistry<u8> = SessionRegistry::new();
    registry.insert(Session::new("a".to_string(), 1));
    registry.insert(Session::new("b".to_string(), 2));
    let found = registry.lookup("b").ok().unwrap();
    assert_eq!(found.id, "b");
    assert_eq!(found.handles, 2);
    assert_eq!(found.dimensions, Dimensions { rows: 24, cols: 80 });
    assert!(registry.contains("a"));
    assert!(!registry.contains("c"));
}

#[test]
fn lookup_tells_similar_identifiers_apart() {
    let mut registry: SessionRegistry<u8> = SessionRegistry::new();
    registry.insert(Session::new("abc".to_string(), 1));
    assert!(!registry.contains("ab"));
    assert!(!registry.contains("abcd"));
    assert!(!registry.contains("abd"));
    assert!(!registry.contains(""));
    assert!(registry.contains("abc"));
}

#[test]
fn removed_session_is_handed_back_once() {
    let mut registry: SessionRegistry<u8> = SessionRegistry::new();
    registry.insert(Session::new("a".to_string(), 1));
    registry.insert(Session::new("b".to_string(), 2));
    registry.insert(Session::new("c".to_string(), 3));
    let removed = registry.remove("b").unwrap();
    assert_eq!(removed.id, "b");
    assert_eq!(removed.handles, 2);
    assert!(registry.remove("b").is_none());
    assert!(registry.contains("a"));
    assert!(registry.contains("c"));
    assert_eq!(registry.lookup("c").ok().unwrap().handles, 3);
}

#[test]
fn removing_an_unknown_identifier_changes_nothing() {
    let mut registry: SessionRegistry<u8> = SessionRegistry::new();
    registry.insert(Session::new("a".to_string(), 1));
    assert!(registry.remove("z").is_none());
    assert!(registry.contains("a"));
}

#[test]
fn set_dimensions_changes_one_session_only() {
    let mut registry: SessionRegistry<u8> = SessionRegistry::new();
    registry.insert(Session::new("a".to_string(), 1));
    registry.insert(Session::new("b".to_string(), 2));
    assert_eq!(registry.set_dimensions("a", Dimensions { rows: 50, cols: 132 }), Ok(()));
    let a = registry.lookup("a").ok().unwrap();
    assert_eq!(a.dimensions, Dimensions { rows: 50, cols: 132 });
    assert_eq!(a.handles, 1);
    assert_eq!(a.id, "a");
    assert_eq!(registry.lookup("b").ok().unwrap().dimensions, Dimensions { rows: 24, cols: 80 });
}

#[test]
fn set_dimensions_of_unknown_session_is_not_found() {
    let mut registry: SessionRegistry<u8> = SessionRegistry::new();
    assert_eq!(
        registry.set_dimensions("a", Dimensions { rows: 1, cols: 1 }),
        Err(SessionError::SessionNotFound)
    );
}
