//! The command surface consumed by the host application: each function takes
//! the managers it needs and performs one caller-visible operation.
//!
//! Argument decoding, filesystem probes and event transport stay with the
//! surrounding application; everything here is pure over the library's own
//! state.

use vstd::prelude::*;
use vstd::string::StringExecFns;

use crate::config::{pushed_recent, AppConfig, AppConfigView, ConfigManager};
use crate::pty::{id_idx, write_outcome, PtyManager, PtyReader};
use crate::session::{session_idx, SessionManager, SessionManagerView};
use crate::text::{
    chars_eq, chars_of, chars_range, find_sub, find_sub_in, lines_of, split_lines, string_from_chars,
    trim_chars, trimmed,
};
use crate::types::{
    AgentMode, AppError, AppErrorView, CopilotSession, CopilotSessionView, CopilotStatus,
    ModelInfo, ModelInfoView, SessionInfo, SessionInfoView, UsageMetrics,
};

verus! {

/// Report whether the CLI executable was found, and where.
pub fn check_copilot_status(pty: &PtyManager) -> (r: CopilotStatus)
    ensures
        r.installed == (pty@.path is Some),
        match &r.path {
            Some(p) => pty@.path == Some(p@),
            None => pty@.path is None,
        },
        r.version is None,
        r.authenticated == false,
{
    CopilotStatus {
        installed: pty.is_copilot_installed(),
        path: pty.get_copilot_path(),
        version: None,
        authenticated: false,
    }
}

/// The id the session manager just recorded as active was not yet known to
/// the process registry.
pub open spec fn recorded_id_fresh(mgr: SessionManagerView, ids: Seq<Seq<char>>) -> bool {
    match mgr.active {
        Some(id) => id_idx(ids, id) == -1,
        None => false,
    }
}

/// Create a session record, launch the child process under its fresh id, and
/// remember the project directory. The returned reader is drained by the
/// caller's blocking read loop. On failure the record stays registered, as it
/// would have before the launch was attempted.
///
/// The error says why: `Other` exactly when the freshly recorded id was
/// already registered (the conflict of a second spawn under a live id);
/// otherwise the recorded id was fresh, and `CopilotNotFound` or `PtyError`
/// report the launch itself, as `spawn_session` does.
pub fn create_session(
    name: &str,
    working_dir: &str,
    session_mgr: &mut SessionManager,
    pty: &mut PtyManager,
    config: &mut ConfigManager,
) -> (r: Result<(SessionInfo, PtyReader), AppError>)
    ensures
        final(pty)@.path == old(pty)@.path,
        match r {
            Ok(pair) => pair.0@.name == name@ && pair.0@.working_dir == working_dir@
                && pair.0@.model is None && pair.0@.mode == AgentMode::Suggest
                && pair.0@.is_active && final(session_mgr)@.active == Some(pair.0@.id)
                && id_idx(old(pty)@.ids, pair.0@.id) == -1 && final(pty)@.ids == old(
                pty,
            )@.ids.push(pair.0@.id) && final(config)@ == (AppConfigView {
                recent_projects: pushed_recent(old(config)@.recent_projects, working_dir@),
                ..old(config)@
            }),
            Err(e) => final(pty)@.ids == old(pty)@.ids && final(config)@ == old(config)@
                && final(session_mgr)@.active is Some && (match e@ {
                AppErrorView::CopilotNotFound => old(pty)@.path is None && recorded_id_fresh(
                    final(session_mgr)@,
                    old(pty)@.ids,
                ),
                AppErrorView::PtyError(_) => old(pty)@.path is Some && recorded_id_fresh(
                    final(session_mgr)@,
                    old(pty)@.ids,
                ),
                AppErrorView::Other(_) => !recorded_id_fresh(final(session_mgr)@, old(pty)@.ids),
                _ => false,
            }),
        },
{
    let session = session_mgr.create_session(name, working_dir);
    if pty.has_session(session.id.as_str()) {
        return Err(AppError::Other(String::from_str("session id already in use")));
    }
    let current = config.get_config();
    let model = current.default_model;
    let reader = match pty.spawn_session(
        session.id.as_str(),
        working_dir,
        match &model {
            Some(m) => Some(m.as_str()),
            None => None,
        },
        Some("suggest"),
    ) {
        Ok(rd) => rd,
        Err(e) => {
            return Err(e);
        },
    };
    config.add_recent_project(working_dir);
    Ok((session, reader))
}

/// Write one message to a session.
pub fn send_message(session_id: &str, message: &str, pty: &mut PtyManager) -> (r: Result<
    (),
    AppError,
>)
    ensures
        final(pty)@ == old(pty)@,
        write_outcome(old(pty)@.ids, session_id@, r),
{
    pty.write_to_session(session_id, message)
}

/// Propagate new terminal geometry to a session.
pub fn resize_terminal(session_id: &str, rows: u16, cols: u16, pty: &PtyManager) -> (r: Result<
    (),
    AppError,
>)
    ensures
        write_outcome(pty@.ids, session_id@, r),
{
    pty.resize_pty(session_id, rows, cols)
}

/// All session records, with activity flags set.
pub fn list_sessions(session_mgr: &SessionManager) -> (r: Vec<SessionInfo>)
    ensures
        r.deep_view().len() == session_mgr@.sessions.len(),
        forall|i: int|
            0 <= i < session_mgr@.sessions.len() ==> r.deep_view()[i] == (SessionInfoView {
                is_active: session_mgr@.active == Some(session_mgr@.sessions[i].id),
                ..session_mgr@.sessions[i]
            }),
{
    session_mgr.list_sessions()
}

/// Kill a session's process and remove its record. Fails with
/// `SessionNotFound` exactly when the registry does not know the id; the
/// returned flag says whether a record was removed.
pub fn close_session(
    session_id: &str,
    session_mgr: &mut SessionManager,
    pty: &mut PtyManager,
) -> (r: Result<bool, AppError>)
    ensures
        match r {
            Ok(removed) => id_idx(old(pty)@.ids, session_id@) != -1 && final(pty)@.ids == old(pty)@.ids.remove(id_idx(old(pty)@.ids, session_id@)) && removed == (session_idx(
                old(session_mgr)@.sessions,
                session_id@,
            ) != -1) && (removed ==> final(session_mgr)@.sessions == old(session_mgr)@.sessions.remove(session_idx(old(session_mgr)@.sessions, session_id@))) && (!removed
                ==> final(session_mgr)@ == old(session_mgr)@),
            Err(e) => e@ == AppErrorView::SessionNotFound(session_id@) && id_idx(
                old(pty)@.ids,
                session_id@,
            ) == -1 && final(pty)@ == old(pty)@ && final(session_mgr)@ == old(session_mgr)@,
        },
{
    match pty.kill_session(session_id) {
        Ok(_) => (),
        Err(e) => {
            return Err(e);
        },
    }
    Ok(session_mgr.remove_session(session_id))
}

/// The current configuration.
pub fn get_config(config: &ConfigManager) -> (r: AppConfig)
    ensures
        r@ == config@,
{
    config.get_config()
}

/// Switch the theme.
pub fn set_theme(theme: &str, config: &mut ConfigManager)
    ensures
        final(config)@ == (AppConfigView { theme: theme@, ..old(config)@ }),
{
    config.set_theme(theme);
}

/// The recent-projects list.
pub fn get_recent_projects(config: &ConfigManager) -> (r: Vec<String>)
    ensures
        r.deep_view() == config@.recent_projects,
{
    let current = config.get_config();
    current.recent_projects
}

/// The plugins reported as installed.
pub fn list_installed_plugins() -> (r: Vec<crate::types::PluginInfo>)
    ensures
        r.deep_view() == crate::plugins::installed_plugins(),
{
    crate::plugins::PluginManager::list_installed_plugins()
}

/// The static marketplace listing.
pub fn list_available_plugins() -> (r: Vec<crate::types::PluginInfo>)
    ensures
        r.deep_view() == crate::plugins::available_plugins(),
{
    crate::plugins::PluginManager::list_available_plugins()
}

/// Send the plugin-install command to a session.
pub fn install_plugin(session_id: &str, name: &str, pty: &mut PtyManager) -> (r: Result<
    (),
    AppError,
>)
    ensures
        final(pty)@ == old(pty)@,
        write_outcome(old(pty)@.ids, session_id@, r),
{
    crate::plugins::PluginManager::install_plugin(pty, session_id, name)
}

/// Send the plugin-uninstall command to a session.
pub fn uninstall_plugin(session_id: &str, name: &str, pty: &mut PtyManager) -> (r: Result<
    (),
    AppError,
>)
    ensures
        final(pty)@ == old(pty)@,
        write_outcome(old(pty)@.ids, session_id@, r),
{
    crate::plugins::PluginManager::uninstall_plugin(pty, session_id, name)
}

/// Send the plugin-update command to a session.
pub fn update_plugin(session_id: &str, name: &str, pty: &mut PtyManager) -> (r: Result<
    (),
    AppError,
>)
    ensures
        final(pty)@ == old(pty)@,
        write_outcome(old(pty)@.ids, session_id@, r),
{
    crate::plugins::PluginManager::update_plugin(pty, session_id, name)
}

/// Rename a session record; fails with `SessionNotFound` when the id is
/// unknown.
pub fn rename_session(session_id: &str, name: &str, session_mgr: &mut SessionManager) -> (r:
    Result<(), AppError>)
    ensures
        match r {
            Ok(_) => session_idx(old(session_mgr)@.sessions, session_id@) != -1 && final(session_mgr)@ == (SessionManagerView {
                sessions: old(session_mgr)@.sessions.update(
                    session_idx(old(session_mgr)@.sessions, session_id@),
                    SessionInfoView {
                        name: name@,
                        ..old(session_mgr)@.sessions[session_idx(
                            old(session_mgr)@.sessions,
                            session_id@,
                        )]
                    },
                ),
                ..old(session_mgr)@
            }),
            Err(e) => e@ == AppErrorView::SessionNotFound(session_id@) && session_idx(
                old(session_mgr)@.sessions,
                session_id@,
            ) == -1 && final(session_mgr)@ == old(session_mgr)@,
        },
{
    if session_mgr.rename_session(session_id, name) {
        Ok(())
    } else {
        Err(AppError::SessionNotFound(session_id.to_owned()))
    }
}

/// The slash command a model choice becomes.
pub fn model_command(model: &str) -> (r: String)
    ensures
        r@ == "/model "@ + model@,
{
    let mut command = String::from_str("/model ");
    command.append(model);
    command
}

/// Record the chosen model on a session and tell the CLI about it: the
/// message handed to [`PtyManager::write_to_session`] is exactly
/// [`model_command`]`(model)`.
pub fn set_model(
    session_id: &str,
    model: &str,
    session_mgr: &mut SessionManager,
    pty: &mut PtyManager,
) -> (r: Result<(), AppError>)
    ensures
        final(pty)@ == old(pty)@,
        write_outcome(old(pty)@.ids, session_id@, r),
        ({
            let f = session_idx(old(session_mgr)@.sessions, session_id@);
            if f == -1 {
                final(session_mgr)@ == old(session_mgr)@
            } else {
                final(session_mgr)@ == (SessionManagerView {
                    sessions: old(session_mgr)@.sessions.update(
                        f,
                        SessionInfoView {
                            model: Some(model@),
                            ..old(session_mgr)@.sessions[f]
                        },
                    ),
                    ..old(session_mgr)@
                })
            }
        }),
{
    let _ = session_mgr.set_session_model(session_id, model);
    let command = model_command(model);
    pty.write_to_session(session_id, command.as_str())
}

/// The agent mode a mode string denotes.
pub open spec fn mode_of(s: Seq<char>) -> Option<AgentMode> {
    if s == "suggest"@ {
        Some(AgentMode::Suggest)
    } else if s == "autoedit"@ {
        Some(AgentMode::AutoEdit)
    } else if s == "autopilot"@ {
        Some(AgentMode::Autopilot)
    } else {
        None
    }
}

/// Record the chosen mode on a session. An unknown mode string is rejected;
/// an unknown session id fails with `SessionNotFound`.
pub fn set_mode(session_id: &str, mode: &str, session_mgr: &mut SessionManager) -> (r: Result<
    (),
    AppError,
>)
    ensures
        match mode_of(mode@) {
            None => final(session_mgr)@ == old(session_mgr)@ && (r matches Err(e)
                && e@ == AppErrorView::Other("Unknown mode: "@ + mode@)),
            Some(m) => ({
                let f = session_idx(old(session_mgr)@.sessions, session_id@);
                if f == -1 {
                    final(session_mgr)@ == old(session_mgr)@ && (r matches Err(e)
                        && e@ == AppErrorView::SessionNotFound(session_id@))
                } else {
                    r is Ok && final(session_mgr)@ == (SessionManagerView {
                        sessions: old(session_mgr)@.sessions.update(
                            f,
                            SessionInfoView { mode: m, ..old(session_mgr)@.sessions[f] },
                        ),
                        ..old(session_mgr)@
                    })
                }
            }),
        },
{
    let owned = mode.to_owned();
    let agent_mode = if owned == String::from_str("suggest") {
        AgentMode::Suggest
    } else if owned == String::from_str("autoedit") {
        AgentMode::AutoEdit
    } else if owned == String::from_str("autopilot") {
        AgentMode::Autopilot
    } else {
        let mut msg = String::from_str("Unknown mode: ");
        msg.append(mode);
        return Err(AppError::Other(msg));
    };
    if session_mgr.set_session_mode(session_id, agent_mode) {
        Ok(())
    } else {
        Err(AppError::SessionNotFound(session_id.to_owned()))
    }
}

/// The default model offered when nothing is configured.
pub fn get_default_model(configured: Option<String>) -> (r: String)
    ensures
        r@ == (match configured {
            Some(m) => m@,
            None => "gpt-5.2"@,
        }),
{
    match configured {
        Some(m) => m,
        None => String::from_str("gpt-5.2"),
    }
}

/// The message as a slash command: kept as is when it already starts with a
/// slash, prefixed with one otherwise.
pub fn normalize_slash_command(command: &str) -> (r: String)
    ensures
        r@ == (if command@.len() > 0 && command@[0] == '/' {
            command@
        } else {
            seq!['/'] + command@
        }),
{
    let chars = chars_of(command);
    if chars.len() > 0 && chars[0] == '/' {
        command.to_owned()
    } else {
        let mut s = String::from_str("/");
        s.append(command);
        proof {
            reveal_strlit("/");
            assert("/"@ =~= seq!['/']);
        }
        s
    }
}

/// Send a slash command to a session: the message handed to
/// [`PtyManager::write_to_session`] is exactly
/// [`normalize_slash_command`]`(command)`.
pub fn send_slash_command(session_id: &str, command: &str, pty: &mut PtyManager) -> (r: Result<
    (),
    AppError,
>)
    ensures
        final(pty)@ == old(pty)@,
        write_outcome(old(pty)@.ids, session_id@, r),
{
    let slash_command = normalize_slash_command(command);
    pty.write_to_session(session_id, slash_command.as_str())
}

/// Look up a session record; fails with `SessionNotFound` when the id is
/// unknown.
pub fn get_session(session_id: &str, session_mgr: &SessionManager) -> (r: Result<
    SessionInfo,
    AppError,
>)
    ensures
        ({
            let f = session_idx(session_mgr@.sessions, session_id@);
            match r {
                Ok(s) => f != -1 && s@ == (SessionInfoView {
                    is_active: session_mgr@.active == Some(session_mgr@.sessions[f].id),
                    ..session_mgr@.sessions[f]
                }),
                Err(e) => f == -1 && e@ == AppErrorView::SessionNotFound(session_id@),
            }
        }),
{
    match session_mgr.get_session(session_id) {
        Some(s) => Ok(s),
        None => Err(AppError::SessionNotFound(session_id.to_owned())),
    }
}

/// Usage counters for a session: fixed request counters and the session's
/// model, defaulting when none was chosen.
pub fn get_usage_metrics(session_id: &str, session_mgr: &SessionManager) -> (r: Result<
    UsageMetrics,
    AppError,
>)
    ensures
        ({
            let f = session_idx(session_mgr@.sessions, session_id@);
            match r {
                Ok(u) => f != -1 && u.premium_requests_used == 0 && u.premium_requests_limit
                    == Some(300u32) && u.session_messages == 0 && u.session_tokens is None
                    && u.active_model@ == (match session_mgr@.sessions[f].model {
                    Some(m) => m,
                    None => "gpt-5.2"@,
                }),
                Err(e) => f == -1 && e@ == AppErrorView::SessionNotFound(session_id@),
            }
        }),
{
    let session = match session_mgr.get_session(session_id) {
        Some(s) => s,
        None => {
            return Err(AppError::SessionNotFound(session_id.to_owned()));
        },
    };
    Ok(
        UsageMetrics {
            premium_requests_used: 0,
            premium_requests_limit: Some(300),
            session_messages: 0,
            session_tokens: None,
            active_model: get_default_model(session.model),
        },
    )
}

/// Send the clear-history command to a session: the message handed to
/// [`PtyManager::write_to_session`] is exactly `/clear`.
pub fn clear_session_history(session_id: &str, pty: &mut PtyManager) -> (r: Result<(), AppError>)
    ensures
        final(pty)@ == old(pty)@,
        write_outcome(old(pty)@.ids, session_id@, r),
{
    pty.write_to_session(session_id, "/clear")
}

/// The selectable models.
pub open spec fn available_models() -> Seq<ModelInfoView> {
    seq![
        ModelInfoView { id: "gemini-3-pro-preview"@, name: "Gemini 3 Pro"@, provider: "Google"@, description: "Preview of Google's latest"@ },
        ModelInfoView { id: "gpt-5.2-codex"@, name: "GPT-5.2 Codex"@, provider: "OpenAI"@, description: "Latest codex model"@ },
        ModelInfoView { id: "gpt-5.2"@, name: "GPT-5.2"@, provider: "OpenAI"@, description: "Latest GPT model"@ },
        ModelInfoView { id: "gpt-5.1-codex-max"@, name: "GPT-5.1 Codex Max"@, provider: "OpenAI"@, description: "Maximum capability codex"@ },
        ModelInfoView { id: "gpt-5.1-codex"@, name: "GPT-5.1 Codex"@, provider: "OpenAI"@, description: "Codex optimized"@ },
        ModelInfoView { id: "gpt-5.1"@, name: "GPT-5.1"@, provider: "OpenAI"@, description: "GPT-5.1 generation"@ },
        ModelInfoView { id: "gpt-5"@, name: "GPT-5"@, provider: "OpenAI"@, description: "OpenAI flagship"@ },
        ModelInfoView { id: "gpt-5.1-codex-mini"@, name: "GPT-5.1 Codex Mini"@, provider: "OpenAI"@, description: "Small and fast codex"@ },
        ModelInfoView { id: "gpt-5-mini"@, name: "GPT-5 Mini"@, provider: "OpenAI"@, description: "Small and efficient"@ },
        ModelInfoView { id: "gpt-4.1"@, name: "GPT-4.1"@, provider: "OpenAI"@, description: "Previous generation"@ },
    ]
}

/// One selectable model.
fn model_entry(id: &str, name: &str, provider: &str, description: &str) -> (r: ModelInfo)
    ensures
        r@ == (ModelInfoView { id: id@, name: name@, provider: provider@, description:
            description@ }),
{
    ModelInfo {
        id: id.to_owned(),
        name: name.to_owned(),
        provider: provider.to_owned(),
        description: description.to_owned(),
    }
}

/// The selectable models, in presentation order.
pub fn list_available_models() -> (r: Vec<ModelInfo>)
    ensures
        r.deep_view() == available_models(),
{
    let mut r: Vec<ModelInfo> = Vec::new();
    r.push(model_entry("gemini-3-pro-preview", "Gemini 3 Pro", "Google", "Preview of Google's latest"));
    r.push(model_entry("gpt-5.2-codex", "GPT-5.2 Codex", "OpenAI", "Latest codex model"));
    r.push(model_entry("gpt-5.2", "GPT-5.2", "OpenAI", "Latest GPT model"));
    r.push(model_entry("gpt-5.1-codex-max", "GPT-5.1 Codex Max", "OpenAI", "Maximum capability codex"));
    r.push(model_entry("gpt-5.1-codex", "GPT-5.1 Codex", "OpenAI", "Codex optimized"));
    r.push(model_entry("gpt-5.1", "GPT-5.1", "OpenAI", "GPT-5.1 generation"));
    r.push(model_entry("gpt-5", "GPT-5", "OpenAI", "OpenAI flagship"));
    r.push(model_entry("gpt-5.1-codex-mini", "GPT-5.1 Codex Mini", "OpenAI", "Small and fast codex"));
    r.push(model_entry("gpt-5-mini", "GPT-5 Mini", "OpenAI", "Small and efficient"));
    r.push(model_entry("gpt-4.1", "GPT-4.1", "OpenAI", "Previous generation"));
    proof {
        assert(r.deep_view() =~= available_models());
    }
    r
}

/// A workspace record with nothing filled in yet.
pub open spec fn empty_workspace() -> CopilotSessionView {
    CopilotSessionView {
        id: Seq::empty(),
        cwd: Seq::empty(),
        summary: None,
        repository: None,
        branch: None,
        created_at: Seq::empty(),
        updated_at: Seq::empty(),
    }
}

/// Effect of one workspace line: a `key: value` line fills the matching
/// field, trimmed; other lines change nothing.
pub open spec fn workspace_step(st: CopilotSessionView, line: Seq<char>) -> CopilotSessionView {
    let f = find_sub(line, ": "@);
    if f == -1 {
        st
    } else {
        let key = trimmed(line.subrange(0, f));
        let value = trimmed(line.subrange(f + 2, line.len() as int));
        if key == "id"@ {
            CopilotSessionView { id: value, ..st }
        } else if key == "cwd"@ {
            CopilotSessionView { cwd: value, ..st }
        } else if key == "summary"@ {
            CopilotSessionView { summary: Some(value), ..st }
        } else if key == "repository"@ {
            CopilotSessionView { repository: Some(value), ..st }
        } else if key == "branch"@ {
            CopilotSessionView { branch: Some(value), ..st }
        } else if key == "created_at"@ {
            CopilotSessionView { created_at: value, ..st }
        } else if key == "updated_at"@ {
            CopilotSessionView { updated_at: value, ..st }
        } else {
            st
        }
    }
}

/// The workspace fields accumulated over all lines.
pub open spec fn workspace_scan(st: CopilotSessionView, lines: Seq<Seq<char>>) -> CopilotSessionView
    decreases lines.len(),
{
    if lines.len() == 0 {
        st
    } else {
        workspace_scan(workspace_step(st, lines[0]), lines.drop_first())
    }
}

/// What a workspace file denotes: the accumulated fields, provided both the
/// id and the working directory were present.
pub open spec fn workspace_of(content: Seq<char>) -> Option<CopilotSessionView> {
    let st = workspace_scan(empty_workspace(), lines_of(content));
    if st.id.len() == 0 || st.cwd.len() == 0 {
        None
    } else {
        Some(st)
    }
}

/// Parse a workspace file of `key: value` lines; see [`workspace_of`].
pub fn parse_workspace_yaml(content: &str) -> (r: Option<CopilotSession>)
    ensures
        match r {
            Some(s) => workspace_of(content@) == Some(s@),
            None => workspace_of(content@) is None,
        },
{
    let chars = chars_of(content);
    let lines = split_lines(&chars);
    let n = lines.len();
    let ghost full = lines_of(content@);
    let mut id = String::new();
    let mut cwd = String::new();
    let mut summary: Option<String> = None;
    let mut repository: Option<String> = None;
    let mut branch: Option<String> = None;
    let mut created_at = String::new();
    let mut updated_at = String::new();
    let mut i: usize = 0;
    proof {
        assert(full.skip(0) =~= full);
    }
    while i < n
        invariant
            i <= n,
            n == lines.len(),
            full == lines_of(content@),
            n == full.len(),
            forall|j: int| 0 <= j < n ==> #[trigger] lines@[j]@ == full[j],
            workspace_scan(empty_workspace(), full) == workspace_scan(
                CopilotSessionView {
                    id: id@,
                    cwd: cwd@,
                    summary: opt_string_view(&summary),
                    repository: opt_string_view(&repository),
                    branch: opt_string_view(&branch),
                    created_at: created_at@,
                    updated_at: updated_at@,
                },
                full.skip(i as int),
            ),
        decreases n - i,
    {
        let ghost pre = CopilotSessionView {
            id: id@,
            cwd: cwd@,
            summary: opt_string_view(&summary),
            repository: opt_string_view(&repository),
            branch: opt_string_view(&branch),
            created_at: created_at@,
            updated_at: updated_at@,
        };
        let ghost rest = full.skip(i as int);
        proof {
            assert(rest[0] == full[i as int]);
            assert(rest.drop_first() =~= full.skip(i + 1 as int));
        }
        let line = &lines[i];
        let pat = chars_of(": ");
        proof {
            reveal_strlit(": ");
        }
        match find_sub_in(line, &pat) {
            Some(f) => {
                let key = trim_chars(&chars_range(line, 0, f));
                let value_raw = chars_range(line, f + 2, line.len());
                proof {
                    assert(value_raw@ =~= full[i as int].subrange(f + 2, full[i as int].len() as int));
                }
                let value = trim_chars(&value_raw);
                if chars_eq(&key, &chars_of("id")) {
                    id = string_from_chars(&value);
                } else if chars_eq(&key, &chars_of("cwd")) {
                    cwd = string_from_chars(&value);
                } else if chars_eq(&key, &chars_of("summary")) {
                    summary = Some(string_from_chars(&value));
                } else if chars_eq(&key, &chars_of("repository")) {
                    repository = Some(string_from_chars(&value));
                } else if chars_eq(&key, &chars_of("branch")) {
                    branch = Some(string_from_chars(&value));
                } else if chars_eq(&key, &chars_of("created_at")) {
                    created_at = string_from_chars(&value);
                } else if chars_eq(&key, &chars_of("updated_at")) {
                    updated_at = string_from_chars(&value);
                }
            },
            None => (),
        }
        proof {
            assert(CopilotSessionView {
                id: id@,
                cwd: cwd@,
                summary: opt_string_view(&summary),
                repository: opt_string_view(&repository),
                branch: opt_string_view(&branch),
                created_at: created_at@,
                updated_at: updated_at@,
            } == workspace_step(pre, full[i as int]));
        }
        i = i + 1;
    }
    proof {
        assert(full.skip(n as int) =~= Seq::<Seq<char>>::empty());
    }
    if id.as_str().is_empty() || cwd.as_str().is_empty() {
        return None;
    }
    Some(
        CopilotSession { id, cwd, summary, repository, branch, created_at, updated_at },
    )
}

/// View of an optional owned string.
pub open spec fn opt_string_view(o: &Option<String>) -> Option<Seq<char>> {
    match o {
        Some(s) => Some(s@),
        None => None,
    }
}

} // verus!

verus! {

/// The chat message one log row yields: user and assistant messages with
/// non-empty content pass through, with the role named plainly; everything
/// else is dropped.
pub open spec fn message_of_record(
    r: crate::types::SessionEventRecordView,
) -> Option<crate::types::SessionMessageView> {
    if r.event_type == "user.message"@ && r.content.len() > 0 {
        Some(
            crate::types::SessionMessageView {
                id: r.id,
                role: "user"@,
                content: r.content,
                timestamp: r.timestamp,
            },
        )
    } else if r.event_type == "assistant.message"@ && r.content.len() > 0 {
        Some(
            crate::types::SessionMessageView {
                id: r.id,
                role: "assistant"@,
                content: r.content,
                timestamp: r.timestamp,
            },
        )
    } else {
        None
    }
}

/// The messages a whole log yields, in log order.
pub open spec fn messages_of(rs: Seq<crate::types::SessionEventRecordView>) -> Seq<
    crate::types::SessionMessageView,
>
    decreases rs.len(),
{
    if rs.len() == 0 {
        Seq::empty()
    } else {
        (match message_of_record(rs[0]) {
            Some(m) => seq![m],
            None => Seq::empty(),
        }) + messages_of(rs.drop_first())
    }
}

/// Keep the user and assistant messages of a session's event log, in order;
/// see [`messages_of`].
pub fn filter_session_events(records: &Vec<crate::types::SessionEventRecord>) -> (r: Vec<
    crate::types::SessionMessage,
>)
    ensures
        r.deep_view() == messages_of(records.deep_view()),
{
    let n = records.len();
    let ghost full = records.deep_view();
    let mut out: Vec<crate::types::SessionMessage> = Vec::new();
    let mut i: usize = 0;
    proof {
        assert(full.skip(0) =~= full);
        assert(out.deep_view() =~= Seq::<crate::types::SessionMessageView>::empty());
        assert(Seq::<crate::types::SessionMessageView>::empty() + messages_of(full)
            =~= messages_of(full));
    }
    while i < n
        invariant
            i <= n,
            n == records.len(),
            full == records.deep_view(),
            messages_of(full) =~= out.deep_view() + messages_of(full.skip(i as int)),
        decreases n - i,
    {
        let ghost rest = full.skip(i as int);
        proof {
            assert(rest[0] == full[i as int]);
            assert(rest.drop_first() =~= full.skip(i + 1 as int));
        }
        let record = &records[i];
        let user_kind = record.event_type == String::from_str("user.message");
        let assistant_kind = record.event_type == String::from_str("assistant.message");
        if (user_kind || assistant_kind) && !record.content.as_str().is_empty() {
            let role = if user_kind {
                String::from_str("user")
            } else {
                String::from_str("assistant")
            };
            let message = crate::types::SessionMessage {
                id: record.id.clone(),
                role,
                content: record.content.clone(),
                timestamp: record.timestamp.clone(),
            };
            let ghost prev = out.deep_view();
            let ghost mv = message@;
            out.push(message);
            proof {
                assert(out.deep_view() =~= prev.push(mv));
                assert(out.deep_view() =~= prev + seq![mv]);
            }
        }
        i = i + 1;
    }
    proof {
        assert(full.skip(n as int) =~= Seq::<crate::types::SessionEventRecordView>::empty());
        assert(out.deep_view() + Seq::<crate::types::SessionMessageView>::empty()
            =~= out.deep_view());
    }
    out
}

} // verus!

verus! {

/// The records stand most recently updated first.
pub open spec fn sorted_by_recency(s: Seq<CopilotSessionView>) -> bool {
    forall|i: int, j: int|
        0 <= i < j < s.len() ==> crate::text::lex_le(#[trigger] s[j].updated_at, #[trigger] s[i].updated_at)
}

/// Whether `a` was updated no later than `b`.
fn updated_no_later(a: &CopilotSession, b: &CopilotSession) -> (r: bool)
    ensures
        r == crate::text::lex_le(a@.updated_at, b@.updated_at),
{
    let av = chars_of(a.updated_at.as_str());
    let bv = chars_of(b.updated_at.as_str());
    crate::text::lex_le_chars(&av, &bv)
}

/// Order recorded sessions most recently updated first: the result is sorted
/// by the update timestamp, descending, and holds exactly the given records.
pub fn sort_sessions_by_recency(sessions: Vec<CopilotSession>) -> (r: Vec<CopilotSession>)
    ensures
        sorted_by_recency(r.deep_view()),
        r.deep_view().to_multiset() == sessions.deep_view().to_multiset(),
{
    let ghost input = sessions.deep_view();
    let mut rest = sessions;
    let mut out: Vec<CopilotSession> = Vec::new();
    proof {
        assert(out.deep_view() =~= Seq::<CopilotSessionView>::empty());
        out.deep_view().to_multiset_ensures();
        rest.deep_view().to_multiset_ensures();
        assert(out.deep_view().to_multiset().add(rest.deep_view().to_multiset())
            =~= input.to_multiset());
    }
    while rest.len() > 0
        invariant
            sorted_by_recency(out.deep_view()),
            forall|p: int, q: int|
                0 <= p < out.deep_view().len() && 0 <= q < rest.deep_view().len()
                    ==> crate::text::lex_le(
                    #[trigger] rest.deep_view()[q].updated_at,
                    #[trigger] out.deep_view()[p].updated_at,
                ),
            out.deep_view().to_multiset().add(rest.deep_view().to_multiset())
                == input.to_multiset(),
        decreases rest.len(),
    {
        let n = rest.len();
        let mut best: usize = 0;
        let mut k: usize = 1;
        proof {
            crate::text::lemma_lex_le_total(
                rest.deep_view()[0].updated_at,
                rest.deep_view()[0].updated_at,
            );
        }
        while k < n
            invariant
                best < k <= n,
                n == rest.len(),
                forall|t: int|
                    0 <= t < k ==> crate::text::lex_le(
                        #[trigger] rest.deep_view()[t].updated_at,
                        rest.deep_view()[best as int].updated_at,
                    ),
            decreases n - k,
        {
            if !updated_no_later(&rest[k], &rest[best]) {
                proof {
                    crate::text::lemma_lex_le_total(
                        rest.deep_view()[k as int].updated_at,
                        rest.deep_view()[best as int].updated_at,
                    );
                    assert forall|t: int|
                        0 <= t < k + 1 implies crate::text::lex_le(
                        #[trigger] rest.deep_view()[t].updated_at,
                        rest.deep_view()[k as int].updated_at,
                    ) by {
                        if t < k {
                            crate::text::lemma_lex_le_trans(
                                rest.deep_view()[t].updated_at,
                                rest.deep_view()[best as int].updated_at,
                                rest.deep_view()[k as int].updated_at,
                            );
                        } else {
                            crate::text::lemma_lex_le_total(
                                rest.deep_view()[t].updated_at,
                                rest.deep_view()[t].updated_at,
                            );
                        }
                    }
                }
                best = k;
            }
            k = k + 1;
        }
        let ghost old_out = out.deep_view();
        let ghost old_rest = rest.deep_view();
        let item = rest.remove(best);
        let ghost iv = item@;
        proof {
            assert(rest.deep_view() =~= old_rest.remove(best as int));
            old_rest.to_multiset_ensures();
            out.deep_view().to_multiset_ensures();
        }
        out.push(item);
        proof {
            assert(out.deep_view() =~= old_out.push(iv));
            old_out.to_multiset_ensures();
            assert(out.deep_view().to_multiset() =~= old_out.to_multiset().insert(iv));
            assert(rest.deep_view().to_multiset() =~= old_rest.to_multiset().remove(iv));
            assert(old_rest.to_multiset().contains(iv)) by {
                old_rest.to_multiset_ensures();
                assert(old_rest[best as int] == iv);
                assert(old_rest.contains(iv));
            }
            assert(out.deep_view().to_multiset().add(rest.deep_view().to_multiset())
                =~= old_out.to_multiset().add(old_rest.to_multiset()));
            assert forall|p: int, q: int|
                0 <= p < out.deep_view().len() && 0 <= q < rest.deep_view().len()
                    implies crate::text::lex_le(
                #[trigger] rest.deep_view()[q].updated_at,
                #[trigger] out.deep_view()[p].updated_at,
            ) by {
                let rq = rest.deep_view()[q];
                if q < best {
                    assert(rq == old_rest[q]);
                } else {
                    assert(rq == old_rest[q + 1]);
                }
                if p < old_out.len() {
                    assert(out.deep_view()[p] == old_out[p]);
                } else {
                    assert(out.deep_view()[p] == iv);
                }
            }
            assert forall|i: int, j: int|
                0 <= i < j < out.deep_view().len() implies crate::text::lex_le(
                #[trigger] out.deep_view()[j].updated_at,
                #[trigger] out.deep_view()[i].updated_at,
            ) by {
                if j == out.deep_view().len() - 1 {
                    assert(out.deep_view()[j] == iv);
                    assert(out.deep_view()[i] == old_out[i]);
                    assert(crate::text::lex_le(old_rest[best as int].updated_at, old_out[i].updated_at));
                } else {
                    assert(out.deep_view()[i] == old_out[i]);
                    assert(out.deep_view()[j] == old_out[j]);
                }
            }
        }
    }
    proof {
        assert(rest.deep_view() =~= Seq::<CopilotSessionView>::empty());
        rest.deep_view().to_multiset_ensures();
        assert(rest.deep_view().to_multiset().len() == 0);
        assert(out.deep_view().to_multiset().add(rest.deep_view().to_multiset())
            =~= out.deep_view().to_multiset());
    }
    out
}

} // verus!
