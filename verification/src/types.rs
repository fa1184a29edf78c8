//! The shared data model: errors, structured output events, session and
//! configuration records, and their mathematical views.
//!
//! Executable values carry `String` fields; contracts speak of the matching
//! view types, whose fields are `Seq<char>`.

use vstd::prelude::*;

verus! {

/// Errors surfaced by the registry and its callers.
///
/// `CopilotNotFound` is terminal for a spawn attempt (the executable is not on
/// the host); `PtyError` is a transport failure; `SessionNotFound` marks a
/// caller error that is always recoverable; `Io` and `Other` carry messages
/// bubbled from collaborators.
#[derive(Debug)]
pub enum AppError {
    CopilotNotFound,
    PtyError(String),
    SessionNotFound(String),
    Io(String),
    Other(String),
}

/// View of [`AppError`].
pub enum AppErrorView {
    CopilotNotFound,
    PtyError(Seq<char>),
    SessionNotFound(Seq<char>),
    Io(Seq<char>),
    Other(Seq<char>),
}

impl View for AppError {
    type V = AppErrorView;

    open spec fn view(&self) -> AppErrorView {
        match self {
            AppError::CopilotNotFound => AppErrorView::CopilotNotFound,
            AppError::PtyError(s) => AppErrorView::PtyError(s@),
            AppError::SessionNotFound(s) => AppErrorView::SessionNotFound(s@),
            AppError::Io(s) => AppErrorView::Io(s@),
            AppError::Other(s) => AppErrorView::Other(s@),
        }
    }
}

impl DeepView for AppError {
    type V = AppErrorView;

    open spec fn deep_view(&self) -> AppErrorView {
        self.view()
    }
}

/// One structured event recognized in the child process's output.
#[derive(Debug)]
pub enum ParsedOutput {
    Text(String),
    CodeBlock { language: Option<String>, code: String },
    ToolExecution { tool: String, status: String },
    FileChange { path: String, action: String },
    Thinking(String),
    Error(String),
    RawLine(String),
}

/// View of [`ParsedOutput`].
pub enum OutputView {
    Text(Seq<char>),
    CodeBlock { language: Option<Seq<char>>, code: Seq<char> },
    ToolExecution { tool: Seq<char>, status: Seq<char> },
    FileChange { path: Seq<char>, action: Seq<char> },
    Thinking(Seq<char>),
    Error(Seq<char>),
    RawLine(Seq<char>),
}

impl View for ParsedOutput {
    type V = OutputView;

    open spec fn view(&self) -> OutputView {
        match self {
            ParsedOutput::Text(s) => OutputView::Text(s@),
            ParsedOutput::CodeBlock { language, code } => OutputView::CodeBlock {
                language: match language {
                    Some(l) => Some(l@),
                    None => None,
                },
                code: code@,
            },
            ParsedOutput::ToolExecution { tool, status } => OutputView::ToolExecution {
                tool: tool@,
                status: status@,
            },
            ParsedOutput::FileChange { path, action } => OutputView::FileChange {
                path: path@,
                action: action@,
            },
            ParsedOutput::Thinking(s) => OutputView::Thinking(s@),
            ParsedOutput::Error(s) => OutputView::Error(s@),
            ParsedOutput::RawLine(s) => OutputView::RawLine(s@),
        }
    }
}

impl DeepView for ParsedOutput {
    type V = OutputView;

    open spec fn deep_view(&self) -> OutputView {
        self.view()
    }
}

/// One event delivered to the per-session sink.
#[derive(Debug)]
pub enum PtyEvent {
    Output(String),
    Parsed(ParsedOutput),
    Error(String),
    Exit(i32),
}

/// View of [`PtyEvent`].
pub enum PtyEventView {
    Output(Seq<char>),
    Parsed(OutputView),
    Error(Seq<char>),
    Exit(int),
}

impl View for PtyEvent {
    type V = PtyEventView;

    open spec fn view(&self) -> PtyEventView {
        match self {
            PtyEvent::Output(s) => PtyEventView::Output(s@),
            PtyEvent::Parsed(p) => PtyEventView::Parsed(p@),
            PtyEvent::Error(s) => PtyEventView::Error(s@),
            PtyEvent::Exit(code) => PtyEventView::Exit(*code as int),
        }
    }
}

impl DeepView for PtyEvent {
    type V = PtyEventView;

    open spec fn deep_view(&self) -> PtyEventView {
        self.view()
    }
}

/// The role a chat message was written in.
#[derive(Debug, Clone, PartialEq, Eq, Structural)]
pub enum MessageRole {
    User,
    Assistant,
    System,
}

/// How much autonomy the agent is granted in a session.
#[derive(Debug, Clone, Copy, PartialEq, Eq, Structural)]
pub enum AgentMode {
    Suggest,
    AutoEdit,
    Autopilot,
}

/// One chat message.
#[derive(Debug)]
pub struct CopilotMessage {
    pub id: String,
    pub role: MessageRole,
    pub content: String,
    pub timestamp: u64,
}

/// A selectable model.
#[derive(Debug)]
pub struct ModelInfo {
    pub id: String,
    pub name: String,
    pub provider: String,
    pub description: String,
}

/// View of [`ModelInfo`].
pub struct ModelInfoView {
    pub id: Seq<char>,
    pub name: Seq<char>,
    pub provider: Seq<char>,
    pub description: Seq<char>,
}

impl View for ModelInfo {
    type V = ModelInfoView;

    open spec fn view(&self) -> ModelInfoView {
        ModelInfoView {
            id: self.id@,
            name: self.name@,
            provider: self.provider@,
            description: self.description@,
        }
    }
}

impl DeepView for ModelInfo {
    type V = ModelInfoView;

    open spec fn deep_view(&self) -> ModelInfoView {
        self.view()
    }
}

/// Bookkeeping record for one session.
#[derive(Debug)]
pub struct SessionInfo {
    pub id: String,
    pub name: String,
    pub working_dir: String,
    pub model: Option<String>,
    pub mode: AgentMode,
    pub created_at: u64,
    pub is_active: bool,
}

/// View of [`SessionInfo`].
pub struct SessionInfoView {
    pub id: Seq<char>,
    pub name: Seq<char>,
    pub working_dir: Seq<char>,
    pub model: Option<Seq<char>>,
    pub mode: AgentMode,
    pub created_at: u64,
    pub is_active: bool,
}

impl View for SessionInfo {
    type V = SessionInfoView;

    open spec fn view(&self) -> SessionInfoView {
        SessionInfoView {
            id: self.id@,
            name: self.name@,
            working_dir: self.working_dir@,
            model: match &self.model {
                Some(m) => Some(m@),
                None => None,
            },
            mode: self.mode,
            created_at: self.created_at,
            is_active: self.is_active,
        }
    }
}

impl DeepView for SessionInfo {
    type V = SessionInfoView;

    open spec fn deep_view(&self) -> SessionInfoView {
        self.view()
    }
}

/// Authentication state reported for the CLI.
#[derive(Debug)]
pub struct AuthStatus {
    pub authenticated: bool,
    pub username: Option<String>,
    pub email: Option<String>,
}

/// View of [`AuthStatus`].
pub struct AuthStatusView {
    pub authenticated: bool,
    pub username: Option<Seq<char>>,
    pub email: Option<Seq<char>>,
}

impl View for AuthStatus {
    type V = AuthStatusView;

    open spec fn view(&self) -> AuthStatusView {
        AuthStatusView {
            authenticated: self.authenticated,
            username: match &self.username {
                Some(u) => Some(u@),
                None => None,
            },
            email: match &self.email {
                Some(e) => Some(e@),
                None => None,
            },
        }
    }
}

impl DeepView for AuthStatus {
    type V = AuthStatusView;

    open spec fn deep_view(&self) -> AuthStatusView {
        self.view()
    }
}

/// Installation state of the CLI executable.
#[derive(Debug)]
pub struct CopilotStatus {
    pub installed: bool,
    pub path: Option<String>,
    pub version: Option<String>,
    pub authenticated: bool,
}

/// A recorded change to one file under a watched directory.
#[derive(Debug)]
pub struct FileChangeEvent {
    pub path: String,
    pub kind: String,
    pub timestamp: u64,
}

/// View of [`FileChangeEvent`].
pub struct FileChangeEventView {
    pub path: Seq<char>,
    pub kind: Seq<char>,
    pub timestamp: u64,
}

impl View for FileChangeEvent {
    type V = FileChangeEventView;

    open spec fn view(&self) -> FileChangeEventView {
        FileChangeEventView { path: self.path@, kind: self.kind@, timestamp: self.timestamp }
    }
}

impl DeepView for FileChangeEvent {
    type V = FileChangeEventView;

    open spec fn deep_view(&self) -> FileChangeEventView {
        self.view()
    }
}

/// A node of a rendered file tree.
#[derive(Debug)]
pub struct FileNode {
    pub name: String,
    pub path: String,
    pub is_dir: bool,
    pub children: Option<Vec<FileNode>>,
    pub change_kind: Option<String>,
}

/// One line of a rendered diff.
#[derive(Debug)]
pub struct DiffLine {
    pub content: String,
    pub line_type: String,
    pub old_line: Option<usize>,
    pub new_line: Option<usize>,
}

/// View of [`DiffLine`].
pub struct DiffLineView {
    pub content: Seq<char>,
    pub line_type: Seq<char>,
    pub old_line: Option<usize>,
    pub new_line: Option<usize>,
}

impl View for DiffLine {
    type V = DiffLineView;

    open spec fn view(&self) -> DiffLineView {
        DiffLineView {
            content: self.content@,
            line_type: self.line_type@,
            old_line: self.old_line,
            new_line: self.new_line,
        }
    }
}

impl DeepView for DiffLine {
    type V = DiffLineView;

    open spec fn deep_view(&self) -> DiffLineView {
        self.view()
    }
}

/// One hunk of a rendered diff.
#[derive(Debug)]
pub struct DiffHunk {
    pub header: String,
    pub lines: Vec<DiffLine>,
}

/// View of [`DiffHunk`].
pub struct DiffHunkView {
    pub header: Seq<char>,
    pub lines: Seq<DiffLineView>,
}

impl View for DiffHunk {
    type V = DiffHunkView;

    open spec fn view(&self) -> DiffHunkView {
        DiffHunkView { header: self.header@, lines: self.lines.deep_view() }
    }
}

impl DeepView for DiffHunk {
    type V = DiffHunkView;

    open spec fn deep_view(&self) -> DiffHunkView {
        self.view()
    }
}

/// A rendered diff for one file.
#[derive(Debug)]
pub struct DiffResult {
    pub path: String,
    pub hunks: Vec<DiffHunk>,
    pub additions: usize,
    pub deletions: usize,
}

/// View of [`DiffResult`].
pub struct DiffResultView {
    pub path: Seq<char>,
    pub hunks: Seq<DiffHunkView>,
    pub additions: usize,
    pub deletions: usize,
}

impl View for DiffResult {
    type V = DiffResultView;

    open spec fn view(&self) -> DiffResultView {
        DiffResultView {
            path: self.path@,
            hunks: self.hunks.deep_view(),
            additions: self.additions,
            deletions: self.deletions,
        }
    }
}

impl DeepView for DiffResult {
    type V = DiffResultView;

    open spec fn deep_view(&self) -> DiffResultView {
        self.view()
    }
}

/// A marketplace or installed plugin.
#[derive(Debug)]
pub struct PluginInfo {
    pub name: String,
    pub version: String,
    pub description: String,
    pub author: String,
    pub installed: bool,
    pub update_available: bool,
    pub category: Option<String>,
    pub downloads: Option<u64>,
}

/// View of [`PluginInfo`].
pub struct PluginInfoView {
    pub name: Seq<char>,
    pub version: Seq<char>,
    pub description: Seq<char>,
    pub author: Seq<char>,
    pub installed: bool,
    pub update_available: bool,
    pub category: Option<Seq<char>>,
    pub downloads: Option<u64>,
}

impl View for PluginInfo {
    type V = PluginInfoView;

    open spec fn view(&self) -> PluginInfoView {
        PluginInfoView {
            name: self.name@,
            version: self.version@,
            description: self.description@,
            author: self.author@,
            installed: self.installed,
            update_available: self.update_available,
            category: match &self.category {
                Some(c) => Some(c@),
                None => None,
            },
            downloads: self.downloads,
        }
    }
}

impl DeepView for PluginInfo {
    type V = PluginInfoView;

    open spec fn deep_view(&self) -> PluginInfoView {
        self.view()
    }
}

/// Configuration of one MCP server.
///
/// The environment is held as a list of key/value pairs.
#[derive(Debug)]
pub struct McpServerConfig {
    pub name: String,
    pub command: String,
    pub args: Vec<String>,
    pub env: Option<Vec<(String, String)>>,
    pub enabled: bool,
    pub status: Option<String>,
}

/// View of [`McpServerConfig`].
pub struct McpServerConfigView {
    pub name: Seq<char>,
    pub command: Seq<char>,
    pub args: Seq<Seq<char>>,
    pub env: Option<Seq<(Seq<char>, Seq<char>)>>,
    pub enabled: bool,
    pub status: Option<Seq<char>>,
}

impl View for McpServerConfig {
    type V = McpServerConfigView;

    open spec fn view(&self) -> McpServerConfigView {
        McpServerConfigView {
            name: self.name@,
            command: self.command@,
            args: self.args.deep_view(),
            env: match &self.env {
                Some(e) => Some(e.deep_view()),
                None => None,
            },
            enabled: self.enabled,
            status: match &self.status {
                Some(s) => Some(s@),
                None => None,
            },
        }
    }
}

impl DeepView for McpServerConfig {
    type V = McpServerConfigView;

    open spec fn deep_view(&self) -> McpServerConfigView {
        self.view()
    }
}

/// Usage counters reported for one session.
#[derive(Debug)]
pub struct UsageMetrics {
    pub premium_requests_used: u32,
    pub premium_requests_limit: Option<u32>,
    pub session_messages: u32,
    pub session_tokens: Option<u64>,
    pub active_model: String,
}

/// A keyboard shortcut shown in the help overlay.
#[derive(Debug)]
pub struct KeyboardShortcut {
    pub key: String,
    pub description: String,
    pub category: String,
}

/// A session recorded on disk by the CLI itself.
#[derive(Debug)]
pub struct CopilotSession {
    pub id: String,
    pub cwd: String,
    pub summary: Option<String>,
    pub repository: Option<String>,
    pub branch: Option<String>,
    pub created_at: String,
    pub updated_at: String,
}

/// View of [`CopilotSession`].
pub struct CopilotSessionView {
    pub id: Seq<char>,
    pub cwd: Seq<char>,
    pub summary: Option<Seq<char>>,
    pub repository: Option<Seq<char>>,
    pub branch: Option<Seq<char>>,
    pub created_at: Seq<char>,
    pub updated_at: Seq<char>,
}

impl View for CopilotSession {
    type V = CopilotSessionView;

    open spec fn view(&self) -> CopilotSessionView {
        CopilotSessionView {
            id: self.id@,
            cwd: self.cwd@,
            summary: match &self.summary {
                Some(s) => Some(s@),
                None => None,
            },
            repository: match &self.repository {
                Some(s) => Some(s@),
                None => None,
            },
            branch: match &self.branch {
                Some(s) => Some(s@),
                None => None,
            },
            created_at: self.created_at@,
            updated_at: self.updated_at@,
        }
    }
}

impl DeepView for CopilotSession {
    type V = CopilotSessionView;

    open spec fn deep_view(&self) -> CopilotSessionView {
        self.view()
    }
}

} // verus!

verus! {

/// One row of a session's on-disk event log, with the fields the message
/// reconstruction reads.
#[derive(Debug)]
pub struct SessionEventRecord {
    pub event_type: String,
    pub id: String,
    pub timestamp: String,
    pub content: String,
}

/// View of [`SessionEventRecord`].
pub struct SessionEventRecordView {
    pub event_type: Seq<char>,
    pub id: Seq<char>,
    pub timestamp: Seq<char>,
    pub content: Seq<char>,
}

impl View for SessionEventRecord {
    type V = SessionEventRecordView;

    open spec fn view(&self) -> SessionEventRecordView {
        SessionEventRecordView {
            event_type: self.event_type@,
            id: self.id@,
            timestamp: self.timestamp@,
            content: self.content@,
        }
    }
}

impl DeepView for SessionEventRecord {
    type V = SessionEventRecordView;

    open spec fn deep_view(&self) -> SessionEventRecordView {
        self.view()
    }
}

/// One chat message reconstructed from a session's event log.
#[derive(Debug)]
pub struct SessionMessage {
    pub id: String,
    pub role: String,
    pub content: String,
    pub timestamp: String,
}

/// View of [`SessionMessage`].
pub struct SessionMessageView {
    pub id: Seq<char>,
    pub role: Seq<char>,
    pub content: Seq<char>,
    pub timestamp: Seq<char>,
}

impl View for SessionMessage {
    type V = SessionMessageView;

    open spec fn view(&self) -> SessionMessageView {
        SessionMessageView {
            id: self.id@,
            role: self.role@,
            content: self.content@,
            timestamp: self.timestamp@,
        }
    }
}

impl DeepView for SessionMessage {
    type V = SessionMessageView;

    open spec fn deep_view(&self) -> SessionMessageView {
        self.view()
    }
}

} // verus!
