use copilot_desktop::pty::{PtyManager, SessionConsumer};
use copilot_desktop::types::{AppError, ParsedOutput, PtyEvent};

#[test]
fn test_write_to_unknown_session_fails() {
    let mut pty = PtyManager::with_executable(Some("/bin/sh".to_string()));
    let result = pty.write_to_session("missing", "hello");
    assert!(matches!(result, Err(AppError::SessionNotFound(id)) if id == "missing"));
}

#[test]
fn test_resize_unknown_session_fails() {
    let pty = PtyManager::with_executable(Some("/bin/sh".to_string()));
    let result = pty.resize_pty("missing", 30, 100);
    assert!(matches!(result, Err(AppError::SessionNotFound(id)) if id == "missing"));
}

#[test]
fn test_kill_unknown_session_fails() {
    let mut pty = PtyManager::with_executable(Some("/bin/sh".to_string()));
    let result = pty.kill_session("missing");
    assert!(matches!(result, Err(AppError::SessionNotFound(id)) if id == "missing"));
}

#[test]
fn test_spawn_without_executable_fails() {
    let mut pty = PtyManager::with_executable(None);
    let result = pty.spawn_session("s1", "/tmp", None, None);
    assert!(matches!(result, Err(AppError::CopilotNotFound)));
    assert!(!pty.has_session("s1"));
}

#[test]
fn test_spawn_with_bad_executable_fails() {
    let mut pty = PtyManager::with_executable(Some("/no/such/binary".to_string()));
    let result = pty.spawn_session("s1", "/tmp", None, None);
    assert!(matches!(result, Err(AppError::PtyError(_))));
    assert!(!pty.has_session("s1"));
}

#[test]
fn test_spawn_write_kill_then_write_fails() {
    let mut pty = PtyManager::with_executable(Some("/bin/cat".to_string()));
    let spawned = pty.spawn_session("s1", "/tmp", None, None);
    assert!(spawned.is_ok(), "spawning /bin/cat on a pty should work");
    assert!(pty.has_session("s1"));
    assert!(pty.write_to_session("s1", "hello").is_ok());
    assert!(pty.resize_pty("s1", 30, 100).is_ok());
    assert!(pty.kill_session("s1").is_ok());
    assert!(!pty.has_session("s1"));
    let after = pty.write_to_session("s1", "again");
    assert!(matches!(after, Err(AppError::SessionNotFound(id)) if id == "s1"));
    let after_resize = pty.resize_pty("s1", 30, 100);
    assert!(matches!(after_resize, Err(AppError::SessionNotFound(_))));
}

#[test]
fn test_two_spawns_distinct_ids_both_live() {
    let mut pty = PtyManager::with_executable(Some("/bin/cat".to_string()));
    let r1 = pty.spawn_session("a", "/tmp", None, None);
    let r2 = pty.spawn_session("b", "/tmp", None, None);
    assert!(r1.is_ok());
    assert!(r2.is_ok());
    assert!(pty.has_session("a"));
    assert!(pty.has_session("b"));
    assert!(pty.write_to_session("a", "one").is_ok());
    assert!(pty.write_to_session("b", "two").is_ok());
    assert!(pty.kill_session("a").is_ok());
    assert!(pty.has_session("b"));
    assert!(pty.kill_session("b").is_ok());
}

#[test]
fn test_consumers_are_independent() {
    let mut c1 = SessionConsumer::new("one");
    let mut c2 = SessionConsumer::new("two");
    assert_eq!(c1.session_id(), "one");
    let e1 = c1.on_chunk("partial");
    assert!(e1.is_empty());
    let e2 = c2.on_chunk("whole line\n");
    assert_eq!(e2.len(), 1);
    assert!(
        matches!(&e2[0], PtyEvent::Parsed(ParsedOutput::Text(s)) if s == "whole line")
    );
    // c1's buffered line is untouched by c2's traffic
    let f1 = c1.on_eof(0);
    assert_eq!(f1.len(), 2);
    assert!(matches!(&f1[0], PtyEvent::Parsed(ParsedOutput::Text(s)) if s == "partial"));
    assert!(matches!(&f1[1], PtyEvent::Exit(0)));
}

#[test]
fn test_consumer_cancel_flushes_without_exit() {
    let mut c = SessionConsumer::new("s");
    let fed = c.on_chunk("```\ncode line\n");
    assert!(fed.is_empty());
    let events = c.on_cancel();
    assert_eq!(events.len(), 1);
    assert!(
        matches!(&events[0], PtyEvent::Parsed(ParsedOutput::CodeBlock { language, code }) if language.is_none() && code == "code line")
    );
}

#[test]
fn test_exit_event_carries_code() {
    let mut c = SessionConsumer::new("s");
    let events = c.on_eof(3);
    assert_eq!(events.len(), 1);
    assert!(matches!(&events[0], PtyEvent::Exit(3)));
}
