use copilot_desktop::auth::{
    auth_from_cli_output, auth_from_config_entries, auth_from_host_entries, check_auth_status,
    extract_username, HostEntry,
};
use copilot_desktop::commands;
use copilot_desktop::files::{parse_unified_diff, record_change, should_ignore, untracked_diff};
use copilot_desktop::mcp::McpManager;
use copilot_desktop::plugins::PluginManager;
use copilot_desktop::session::SessionManager;
use copilot_desktop::types::{AppError, McpServerConfig, SessionEventRecord};

#[test]
fn test_extract_username_logged_in_as() {
    let user = extract_username("some noise\nLogged in as octocat\n");
    assert_eq!(user.as_deref(), Some("octocat"));
}

#[test]
fn test_extract_username_field() {
    let user = extract_username("Username: alice\n");
    assert_eq!(user.as_deref(), Some("alice"));
    assert!(extract_username("nothing here\n").is_none());
}

#[test]
fn test_auth_from_cli_output() {
    let auth = auth_from_cli_output("Logged in as bob\n", false).unwrap();
    assert!(auth.authenticated);
    assert_eq!(auth.username.as_deref(), Some("bob"));
    assert!(auth_from_cli_output("please sign in", false).is_none());
}

#[test]
fn test_auth_from_host_entries() {
    let entries = vec![
        HostEntry { user: None, email: None, has_oauth_token: false },
        HostEntry { user: None, email: None, has_oauth_token: true },
        HostEntry {
            user: Some("carol".to_string()),
            email: Some("c@example.com".to_string()),
            has_oauth_token: true,
        },
    ];
    let auth = auth_from_host_entries(&entries).unwrap();
    assert!(auth.authenticated);
    assert!(auth.username.is_none());
    let tail = vec![HostEntry {
        user: Some("carol".to_string()),
        email: Some("c@example.com".to_string()),
        has_oauth_token: true,
    }];
    let auth2 = auth_from_config_entries(&tail).unwrap();
    assert_eq!(auth2.username.as_deref(), Some("carol"));
    assert_eq!(auth2.email.as_deref(), Some("c@example.com"));
}

#[test]
fn test_check_auth_status_fallback() {
    let none = check_auth_status(None, None);
    assert!(!none.authenticated);
    assert!(none.username.is_none());
}

#[test]
fn test_should_ignore() {
    assert!(should_ignore("project/node_modules/pkg/index.js"));
    assert!(should_ignore(".git/HEAD"));
    assert!(should_ignore("a/target/debug"));
    assert!(!should_ignore("src/main.rs"));
    assert!(!should_ignore("my_node_modules_notes.txt"));
}

#[test]
fn test_record_change_updates_or_appends() {
    let mut changes = Vec::new();
    record_change(&mut changes, "a.rs", "created", 1);
    record_change(&mut changes, "b.rs", "created", 2);
    record_change(&mut changes, "a.rs", "modified", 3);
    assert_eq!(changes.len(), 2);
    assert_eq!(changes[0].path, "a.rs");
    assert_eq!(changes[0].kind, "modified");
    assert_eq!(changes[0].timestamp, 3);
    assert_eq!(changes[1].path, "b.rs");
}

#[test]
fn test_parse_unified_diff() {
    let diff = "diff --git a/f b/f\n--- a/f\n+++ b/f\n@@ -1,3 +1,4 @@\n context\n-removed\n+added one\n+added two\n";
    let result = parse_unified_diff("f", diff).unwrap();
    assert_eq!(result.path, "f");
    assert_eq!(result.additions, 2);
    assert_eq!(result.deletions, 1);
    assert_eq!(result.hunks.len(), 1);
    let hunk = &result.hunks[0];
    assert_eq!(hunk.header, "@@ -1,3 +1,4 @@");
    assert_eq!(hunk.lines.len(), 4);
    assert_eq!(hunk.lines[0].content, "context");
    assert_eq!(hunk.lines[0].line_type, "context");
    assert_eq!(hunk.lines[0].old_line, Some(1));
    assert_eq!(hunk.lines[0].new_line, Some(1));
    assert_eq!(hunk.lines[1].content, "removed");
    assert_eq!(hunk.lines[1].line_type, "remove");
    assert_eq!(hunk.lines[1].old_line, Some(2));
    assert_eq!(hunk.lines[2].content, "added one");
    assert_eq!(hunk.lines[2].line_type, "add");
    assert_eq!(hunk.lines[2].new_line, Some(2));
    assert_eq!(hunk.lines[3].new_line, Some(3));
}

#[test]
fn test_untracked_diff() {
    let result = untracked_diff("new.txt", "first\nsecond\n");
    assert_eq!(result.path, "new.txt");
    assert_eq!(result.additions, 2);
    assert_eq!(result.deletions, 0);
    assert_eq!(result.hunks.len(), 1);
    assert_eq!(result.hunks[0].header, "@@ -0,0 +1,2 @@");
    assert_eq!(result.hunks[0].lines[0].content, "first");
    assert_eq!(result.hunks[0].lines[0].line_type, "add");
    assert_eq!(result.hunks[0].lines[0].new_line, Some(1));
    assert_eq!(result.hunks[0].lines[1].new_line, Some(2));
}

#[test]
fn test_mcp_add_list_toggle_delete() {
    let mut mcp = McpManager::new();
    let server = McpServerConfig {
        name: "files".to_string(),
        command: "mcp-files".to_string(),
        args: vec!["--root".to_string(), "/tmp".to_string()],
        env: Some(vec![("KEY".to_string(), "VALUE".to_string())]),
        enabled: true,
        status: Some("transient".to_string()),
    };
    mcp.add_server(server).unwrap();
    let listed = mcp.list_servers().unwrap();
    assert_eq!(listed.len(), 1);
    assert_eq!(listed[0].name, "files");
    assert!(listed[0].status.is_none());
    assert!(listed[0].enabled);

    mcp.toggle_server("files", false).unwrap();
    assert!(!mcp.list_servers().unwrap()[0].enabled);

    let dup = McpServerConfig {
        name: "files".to_string(),
        command: "other".to_string(),
        args: vec![],
        env: None,
        enabled: true,
        status: None,
    };
    let err = mcp.add_server(dup);
    assert!(matches!(err, Err(AppError::Other(m)) if m == "MCP server 'files' already exists"));

    mcp.delete_server("files").unwrap();
    assert!(mcp.list_servers().unwrap().is_empty());
    let missing = mcp.delete_server("files");
    assert!(matches!(missing, Err(AppError::Other(m)) if m == "MCP server 'files' not found"));
}

#[test]
fn test_mcp_update_and_rename() {
    let mut mcp = McpManager::new();
    let mk = |name: &str| McpServerConfig {
        name: name.to_string(),
        command: "cmd".to_string(),
        args: vec![],
        env: None,
        enabled: true,
        status: None,
    };
    mcp.add_server(mk("alpha")).unwrap();
    mcp.add_server(mk("beta")).unwrap();
    let mut renamed = mk("gamma");
    renamed.command = "cmd2".to_string();
    mcp.update_server("alpha", renamed).unwrap();
    let names: Vec<String> = mcp.list_servers().unwrap().into_iter().map(|s| s.name).collect();
    assert!(names.contains(&"beta".to_string()));
    assert!(names.contains(&"gamma".to_string()));
    assert!(!names.contains(&"alpha".to_string()));
    let missing = mcp.update_server("alpha", mk("delta"));
    assert!(matches!(missing, Err(AppError::Other(_))));
}

#[test]
fn test_plugin_listings() {
    let available = PluginManager::list_available_plugins();
    assert_eq!(available.len(), 6);
    assert_eq!(available[0].name, "github-pr-review");
    assert_eq!(available[0].version, "1.2.0");
    assert!(!available[0].installed);
    assert_eq!(available[5].name, "figma-bridge");
    let installed = PluginManager::list_installed_plugins();
    assert_eq!(installed.len(), 1);
    assert!(installed[0].installed);
    assert!(installed[0].update_available);
    assert_eq!(installed[0].version, "1.1.0");
}

#[test]
fn test_normalize_slash_command() {
    assert_eq!(commands::normalize_slash_command("/model x"), "/model x");
    assert_eq!(commands::normalize_slash_command("clear"), "/clear");
}

#[test]
fn test_set_mode_rejects_unknown() {
    let mut mgr = SessionManager::new();
    let err = commands::set_mode("id", "turbo", &mut mgr);
    assert!(matches!(err, Err(AppError::Other(m)) if m == "Unknown mode: turbo"));
    let missing = commands::set_mode("id", "autopilot", &mut mgr);
    assert!(matches!(missing, Err(AppError::SessionNotFound(_))));
}

#[test]
fn test_get_usage_metrics() {
    let mut mgr = SessionManager::new();
    let s = mgr.create_session("s", "/tmp");
    let metrics = commands::get_usage_metrics(&s.id, &mgr).unwrap();
    assert_eq!(metrics.premium_requests_used, 0);
    assert_eq!(metrics.premium_requests_limit, Some(300));
    assert_eq!(metrics.active_model, "gpt-5.2");
    mgr.set_session_model(&s.id, "gpt-5");
    let metrics2 = commands::get_usage_metrics(&s.id, &mgr).unwrap();
    assert_eq!(metrics2.active_model, "gpt-5");
    let missing = commands::get_usage_metrics("none", &mgr);
    assert!(matches!(missing, Err(AppError::SessionNotFound(_))));
}

#[test]
fn test_get_default_model() {
    assert_eq!(commands::get_default_model(None), "gpt-5.2");
    assert_eq!(commands::get_default_model(Some("gpt-4.1".to_string())), "gpt-4.1");
}

#[test]
fn test_list_available_models() {
    let models = commands::list_available_models();
    assert_eq!(models.len(), 10);
    assert_eq!(models[0].id, "gemini-3-pro-preview");
    assert_eq!(models[0].provider, "Google");
    assert_eq!(models[9].id, "gpt-4.1");
}

#[test]
fn test_parse_workspace_yaml() {
    let content = "id: abc123\ncwd: /home/me/project\nsummary: fix the bug\nbranch: main\ncreated_at: 2024-01-01\nupdated_at: 2024-01-02\n";
    let session = commands::parse_workspace_yaml(content).unwrap();
    assert_eq!(session.id, "abc123");
    assert_eq!(session.cwd, "/home/me/project");
    assert_eq!(session.summary.as_deref(), Some("fix the bug"));
    assert!(session.repository.is_none());
    assert_eq!(session.branch.as_deref(), Some("main"));
    assert_eq!(session.created_at, "2024-01-01");
    assert_eq!(session.updated_at, "2024-01-02");
}

#[test]
fn test_parse_workspace_yaml_requires_id_and_cwd() {
    assert!(commands::parse_workspace_yaml("id: only\n").is_none());
    assert!(commands::parse_workspace_yaml("cwd: /tmp\n").is_none());
    assert!(commands::parse_workspace_yaml("").is_none());
}

#[test]
fn test_rename_session_command() {
    let mut mgr = SessionManager::new();
    let s = mgr.create_session("old", "/tmp");
    assert!(commands::rename_session(&s.id, "new", &mut mgr).is_ok());
    assert_eq!(mgr.get_session(&s.id).unwrap().name, "new");
    let missing = commands::rename_session("none", "x", &mut mgr);
    assert!(matches!(missing, Err(AppError::SessionNotFound(_))));
}

#[test]
fn test_filter_session_events() {
    let records = vec![
        SessionEventRecord {
            event_type: "user.message".to_string(),
            id: "1".to_string(),
            timestamp: "t1".to_string(),
            content: "hi".to_string(),
        },
        SessionEventRecord {
            event_type: "tool.call".to_string(),
            id: "2".to_string(),
            timestamp: "t2".to_string(),
            content: "ignored".to_string(),
        },
        SessionEventRecord {
            event_type: "assistant.message".to_string(),
            id: "3".to_string(),
            timestamp: "t3".to_string(),
            content: "".to_string(),
        },
        SessionEventRecord {
            event_type: "assistant.message".to_string(),
            id: "4".to_string(),
            timestamp: "t4".to_string(),
            content: "hello".to_string(),
        },
    ];
    let messages = commands::filter_session_events(&records);
    assert_eq!(messages.len(), 2);
    assert_eq!(messages[0].id, "1");
    assert_eq!(messages[0].role, "user");
    assert_eq!(messages[1].id, "4");
    assert_eq!(messages[1].role, "assistant");
    assert_eq!(messages[1].content, "hello");
}

#[test]
fn test_sort_sessions_by_recency() {
    let mk = |id: &str, updated: &str| copilot_desktop::types::CopilotSession {
        id: id.to_string(),
        cwd: "/tmp".to_string(),
        summary: None,
        repository: None,
        branch: None,
        created_at: "2024-01-01".to_string(),
        updated_at: updated.to_string(),
    };
    let sessions = vec![
        mk("a", "2024-01-02"),
        mk("b", "2024-03-01"),
        mk("c", "2023-12-31"),
        mk("d", "2024-02-15"),
    ];
    let sorted = commands::sort_sessions_by_recency(sessions);
    let ids: Vec<String> = sorted.into_iter().map(|s| s.id).collect();
    assert_eq!(ids, vec!["b", "d", "a", "c"]);
}

#[test]
fn test_message_line() {
    assert_eq!(copilot_desktop::pty::message_line("hello"), "hello\n");
    assert_eq!(copilot_desktop::pty::message_line(""), "\n");
}

#[test]
fn test_plugin_command() {
    assert_eq!(
        copilot_desktop::plugins::plugin_command("install", "sql-assistant"),
        "/plugin install sql-assistant"
    );
    assert_eq!(
        copilot_desktop::plugins::plugin_command("uninstall", "x"),
        "/plugin uninstall x"
    );
}

#[test]
fn test_model_command() {
    assert_eq!(commands::model_command("gpt-5"), "/model gpt-5");
}
