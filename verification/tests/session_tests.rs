use copilot_desktop::session::SessionManager;

#[test]
fn test_create_session() {
    let mut manager = SessionManager::new();
    let session = manager.create_session("test", "/tmp");
    assert_eq!(session.name, "test");
    assert_eq!(session.working_dir, "/tmp");
    assert!(session.is_active);
    assert!(!session.id.is_empty());
}

#[test]
fn test_list_sessions() {
    let mut manager = SessionManager::new();
    manager.create_session("s1", "/tmp");
    manager.create_session("s2", "/home");
    let sessions = manager.list_sessions();
    assert_eq!(sessions.len(), 2);
}

#[test]
fn test_active_session_is_last_created() {
    let mut manager = SessionManager::new();
    let s1 = manager.create_session("s1", "/tmp");
    let s2 = manager.create_session("s2", "/home");
    assert_eq!(manager.get_active_session_id(), Some(s2.id.clone()));

    // s1 should not be active, s2 should be
    let listed = manager.list_sessions();
    let s1_listed = listed.iter().find(|s| s.id == s1.id).unwrap();
    let s2_listed = listed.iter().find(|s| s.id == s2.id).unwrap();
    assert!(!s1_listed.is_active);
    assert!(s2_listed.is_active);
}

#[test]
fn test_delete_session() {
    let mut manager = SessionManager::new();
    let session = manager.create_session("test", "/tmp");
    assert!(manager.remove_session(&session.id));
    assert_eq!(manager.list_sessions().len(), 0);
}

#[test]
fn test_delete_session_clears_active() {
    let mut manager = SessionManager::new();
    let session = manager.create_session("test", "/tmp");
    manager.remove_session(&session.id);
    assert!(manager.get_active_session_id().is_none());
}

#[test]
fn test_delete_nonexistent_session_returns_false() {
    let mut manager = SessionManager::new();
    assert!(!manager.remove_session("nonexistent"));
}

#[test]
fn test_set_active_session() {
    let mut manager = SessionManager::new();
    let s1 = manager.create_session("s1", "/tmp");
    let _s2 = manager.create_session("s2", "/home");
    assert!(manager.set_active_session(&s1.id));
    assert_eq!(manager.get_active_session_id(), Some(s1.id));
}

#[test]
fn test_rename_session() {
    let mut manager = SessionManager::new();
    let session = manager.create_session("old", "/tmp");
    assert!(manager.rename_session(&session.id, "new"));
    let updated = manager.get_session(&session.id).unwrap();
    assert_eq!(updated.name, "new");
}

#[test]
fn test_set_session_model_and_mode() {
    let mut manager = SessionManager::new();
    let session = manager.create_session("s", "/tmp");
    assert!(manager.set_session_model(&session.id, "gpt-5-mini"));
    assert!(manager.set_session_mode(
        &session.id,
        copilot_desktop::types::AgentMode::Autopilot
    ));
    let updated = manager.get_session(&session.id).unwrap();
    assert_eq!(updated.model.as_deref(), Some("gpt-5-mini"));
    assert_eq!(updated.mode, copilot_desktop::types::AgentMode::Autopilot);
    assert!(!manager.set_session_model("missing", "m"));
}

#[test]
fn test_session_ids_are_distinct() {
    let mut manager = SessionManager::new();
    let a = manager.create_session("a", "/tmp");
    let b = manager.create_session("b", "/tmp");
    assert_ne!(a.id, b.id);
}
