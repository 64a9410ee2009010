use sequential_thinking::clock::{elapsed_since, go_back, to_instant, to_wall_time};
use sequential_thinking::path::SessionPath;
use sequential_thinking::persistence::display_path;
use sequential_thinking::sequence_manager::SequenceManager;
use sequential_thinking::session_id::{
    check_session_id, generate_session_id, sanitize_session_id, session_id_from_bits,
    session_id_or_new, SessionIdError,
};
use sequential_thinking::types::{PersistenceConfig, CLEANUP_AFTER};

fn path(parts: &[&str]) -> SessionPath {
    SessionPath { parts: parts.iter().map(|part| part.to_string()).collect() }
}

#[test]
fn safe_session_ids_are_accepted() {
    assert_eq!(sanitize_session_id("abc-123_XYZ"), Ok("abc-123_XYZ".to_string()));
    assert_eq!(sanitize_session_id("größe"), Ok("größe".to_string()));
    assert_eq!(sanitize_session_id("日本"), Ok("日本".to_string()));
    assert_eq!(sanitize_session_id(&"a".repeat(255)), Ok("a".repeat(255)));
}

#[test]
fn unsafe_session_ids_are_refused() {
    let bad = ["../etc", "a/b", "a\\b", "a.b", "a b", "nul\0", "—", "a\n"];
    for id in bad {
        assert_eq!(sanitize_session_id(id), Err(SessionIdError::InvalidCharacters));
    }
    assert_eq!(sanitize_session_id(""), Err(SessionIdError::Empty));
    assert_eq!(sanitize_session_id(&"a".repeat(256)), Err(SessionIdError::TooLong { len: 256 }));
    assert_eq!(sanitize_session_id(&"ä".repeat(128)), Err(SessionIdError::TooLong { len: 256 }));
}

#[test]
fn ascii_session_id_characters() {
    let mut code: u8 = 0;
    while code < 128 {
        let c = code as char;
        let allowed = c.is_ascii_alphanumeric() || c == '-' || c == '_';
        assert_eq!(sanitize_session_id(&c.to_string()).is_ok(), allowed);
        code += 1;
    }
}

#[test]
fn refusals_have_texts() {
    assert_eq!(
        SessionIdError::InvalidCharacters.message("a/b"),
        "Invalid session_id 'a/b': must contain only alphanumeric characters, hyphens, and underscores"
    );
    assert_eq!(SessionIdError::Empty.message(""), "session_id cannot be empty");
    assert_eq!(
        SessionIdError::TooLong { len: 300 }.message("x"),
        "session_id too long (max 255 characters, got 300)"
    );
}

#[test]
fn the_decision_takes_the_characters_as_given() {
    assert_eq!(check_session_id("abc", true), Ok("abc".to_string()));
    assert_eq!(check_session_id("abc", false), Err(SessionIdError::InvalidCharacters));
    assert_eq!(check_session_id("", true), Err(SessionIdError::Empty));
}

#[test]
fn generated_session_ids_are_uuids() {
    let id = generate_session_id();
    assert_eq!(id.len(), 36);
    assert_eq!(id.as_bytes()[14], b'4');
    assert!(matches!(id.as_bytes()[19], b'8' | b'9' | b'a' | b'b'));
    assert_eq!(sanitize_session_id(&id), Ok(id.clone()));
    assert_ne!(id, generate_session_id());
}

#[test]
fn session_ids_from_bits() {
    assert_eq!(session_id_from_bits(0), "00000000-0000-0000-0000-000000000000");
    assert_eq!(
        session_id_from_bits(0x0123_4567_89ab_4def_8123_4567_89ab_cdef),
        "01234567-89ab-4def-8123-456789abcdef"
    );
}

#[test]
fn a_given_session_id_is_used() {
    assert_eq!(session_id_or_new(Some("mine".to_string())), "mine");
    assert_eq!(session_id_or_new(None).len(), 36);
}

#[test]
fn paths_by_components() {
    let base = path(&["/", "home", "store"]);
    let dir = base.join("abc");
    assert_eq!(dir, path(&["/", "home", "store", "abc"]));
    assert_eq!(dir.parent(), Some(base.clone()));
    assert_eq!(dir.file_name(), Some("abc".to_string()));
    assert!(dir.starts_with(&base));
    assert!(base.starts_with(&base));
    assert!(!base.starts_with(&dir));
    assert!(!path(&["/", "home", "storeroom"]).starts_with(&base));
}

#[test]
fn paths_without_parent_or_name() {
    assert_eq!(path(&["/"]).parent(), None);
    assert_eq!(SessionPath::new().parent(), None);
    assert_eq!(path(&["a"]).parent(), Some(SessionPath::new()));
    assert_eq!(path(&["/"]).file_name(), None);
    assert_eq!(path(&["a", ".."]).file_name(), None);
    assert_eq!(path(&["a", "."]).file_name(), None);
    assert_eq!(SessionPath::new().file_name(), None);
}

#[test]
fn stores_in_their_directories() {
    let config = PersistenceConfig::default(Some(path(&["/", "config"])));
    assert_eq!(config.sessions_dir, path(&["/", "config", "kodegen-mcp", "sequential_thinking"]));
    assert_eq!(config.cleanup_after, CLEANUP_AFTER);
    assert_eq!(CLEANUP_AFTER, 24 * 60 * 60 * 1_000_000_000);
    let config = PersistenceConfig::default(None);
    assert_eq!(config.sessions_dir, path(&[".", "kodegen-mcp", "sequential_thinking"]));
    assert_eq!(config.cleanup_after, CLEANUP_AFTER);
    let config = PersistenceConfig::in_state_dir(Some(path(&["/", "state"])));
    assert_eq!(config.sessions_dir, path(&["/", "state", "sessions", "sequential_thinking"]));
    assert_eq!(config.cleanup_after, CLEANUP_AFTER);
    let config = PersistenceConfig::in_state_dir(None);
    assert_eq!(config.sessions_dir, path(&["sessions", "sequential_thinking"]));
}

#[test]
fn paths_as_text() {
    assert_eq!(display_path(&path(&["/", "home", "store"])), "/home/store");
    assert_eq!(display_path(&path(&["store", "abc"])), "store/abc");
    assert_eq!(display_path(&path(&["/"])), "/");
    assert_eq!(display_path(&SessionPath::new()), "");
}

#[test]
fn clocks() {
    assert_eq!(elapsed_since(40, 100), 60);
    assert_eq!(elapsed_since(100, 40), 0);
    assert_eq!(go_back(100, 30), 70);
    assert_eq!(go_back(100, 101), 100);
    assert_eq!(to_wall_time(90, 100, 5_000), 4_990);
    assert_eq!(to_wall_time(110, 100, 5_000), 5_000);
    assert_eq!(to_wall_time(0, 100, 50), -50);
    assert_eq!(to_wall_time(0, 100, -50), -150);
    assert_eq!(to_instant(4_990, 100, 5_000), Some(90));
    assert_eq!(to_instant(5_001, 100, 5_000), None);
    assert_eq!(to_instant(0, 100, 5_000), Some(100));
    assert_eq!(to_instant(-10, 100, 50), Some(40));
}

#[test]
fn times_survive_a_restart() {
    let wall = to_wall_time(700, 1_000, 50_000);
    let restored = to_instant(wall, 9_000, 50_100);
    assert_eq!(restored, Some(9_000 - 300 - 100));
}

#[test]
fn sequences_start_with_the_first_thought() {
    let mut manager = SequenceManager::new();
    assert_eq!(manager.current("a"), None);
    assert_eq!(manager.resolve("a", 1), (1, true, None));
    assert_eq!(manager.resolve("a", 2), (1, false, None));
    assert_eq!(manager.current("a"), Some(1));
    assert_eq!(manager.resolve("a", 1), (2, true, Some(1)));
    assert_eq!(manager.resolve("a", 7), (2, false, None));
}

#[test]
fn sequences_of_connections_are_separate() {
    let mut manager = SequenceManager::default();
    assert_eq!(manager.resolve("a", 1), (1, true, None));
    assert_eq!(manager.resolve("b", 3), (2, true, None));
    assert_eq!(manager.resolve("b", 4), (2, false, None));
    manager.cleanup("a");
    assert_eq!(manager.current("a"), None);
    assert_eq!(manager.current("b"), Some(2));
    assert_eq!(manager.resolve("a", 5), (3, true, None));
    manager.cleanup("never seen");
    assert_eq!(manager.current("a"), Some(3));
}
