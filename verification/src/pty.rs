//! The process session registry: one pseudo-terminal-attached child process
//! per session id, with spawn, write, resize and kill, plus the per-session
//! consumer that turns raw output chunks into typed events.
//!
//! The registry's map and its error discipline are verified; the operating
//! system side (opening the pty, launching the child, moving bytes) stands
//! behind the trusted wrappers at the bottom of this file. The blocking read
//! loop and the asynchronous drain belong to the surrounding application,
//! which reads chunks from the returned [`PtyReader`] and hands them to a
//! [`SessionConsumer`].

use vstd::prelude::*;
use vstd::string::StringExecFns;

use crate::parser::{flush_step, scan, strip_ansi_of, AnsiParser, ParserView};
use crate::types::{AppError, AppErrorView, OutputView, ParsedOutput, PtyEvent, PtyEventView};
use portable_pty::{Child, ChildKiller, MasterPty, PtySystem, SlavePty};
use std::io::{Read, Write};

verus! {

/// Rows of the fixed initial pty geometry; callers resize after attaching.
pub const INITIAL_ROWS: u16 = 50;

/// Columns of the fixed initial pty geometry.
pub const INITIAL_COLS: u16 = 120;

/// Mathematical state of one [`PtyManager`]: the registered session ids, in
/// registration order, and the cached executable path.
pub struct PtyManagerView {
    pub ids: Seq<Seq<char>>,
    pub path: Option<Seq<char>>,
}

/// First index in `ids` equal to `id`, or `-1`.
pub open spec fn id_idx(ids: Seq<Seq<char>>, id: Seq<char>) -> int
    decreases ids.len(),
{
    if ids.len() == 0 {
        -1
    } else if ids[0] == id {
        0
    } else if id_idx(ids.drop_first(), id) == -1 {
        -1
    } else {
        id_idx(ids.drop_first(), id) + 1
    }
}

/// Characterization of [`id_idx`]: `-1` means the id is absent; otherwise it
/// is the first position holding the id.
pub proof fn lemma_id_idx(ids: Seq<Seq<char>>, id: Seq<char>)
    ensures
        id_idx(ids, id) == -1 ==> forall|i: int| 0 <= i < ids.len() ==> ids[i] != id,
        id_idx(ids, id) != -1 ==> 0 <= id_idx(ids, id) < ids.len() && ids[id_idx(ids, id)] == id
            && (forall|i: int| 0 <= i < id_idx(ids, id) ==> ids[i] != id),
    decreases ids.len(),
{
    if ids.len() > 0 && ids[0] != id {
        lemma_id_idx(ids.drop_first(), id);
        let f = id_idx(ids.drop_first(), id);
        if f == -1 {
            assert forall|i: int| 0 <= i < ids.len() implies ids[i] != id by {
                if i >= 1 {
                    assert(ids[i] == ids.drop_first()[i - 1]);
                }
            }
        } else {
            assert(ids[f + 1] == ids.drop_first()[f]);
            assert forall|i: int| 0 <= i < f + 1 implies ids[i] != id by {
                if i >= 1 {
                    assert(ids[i] == ids.drop_first()[i - 1]);
                }
            }
        }
    }
}

/// No session id stands twice in the registry. `spawn_session` requires the
/// id to be absent before it registers it, so every reachable registry
/// satisfies this; the constructors and each operation state that they keep
/// it.
pub open spec fn distinct_ids(ids: Seq<Seq<char>>) -> bool {
    forall|i: int, j: int| 0 <= i < j < ids.len() ==> ids[i] != ids[j]
}

/// Registering an absent id keeps the ids pairwise distinct.
pub proof fn lemma_register_keeps_distinct(ids: Seq<Seq<char>>, id: Seq<char>)
    requires
        distinct_ids(ids),
        id_idx(ids, id) == -1,
    ensures
        distinct_ids(ids.push(id)),
{
    lemma_id_idx(ids, id);
    assert forall|i: int, j: int|
        0 <= i < j < ids.push(id).len() implies ids.push(id)[i] != ids.push(id)[j] by {
        if j == ids.len() {
            assert(ids.push(id)[i] == ids[i]);
        }
    }
}

/// Removing an entry keeps the ids pairwise distinct.
pub proof fn lemma_remove_keeps_distinct(ids: Seq<Seq<char>>, f: int)
    requires
        distinct_ids(ids),
        0 <= f < ids.len(),
    ensures
        distinct_ids(ids.remove(f)),
{
    let removed = ids.remove(f);
    assert forall|i: int, j: int|
        0 <= i < j < removed.len() implies removed[i] != removed[j] by {
        if i < f {
            assert(removed[i] == ids[i]);
        } else {
            assert(removed[i] == ids[i + 1]);
        }
        if j < f {
            assert(removed[j] == ids[j]);
        } else {
            assert(removed[j] == ids[j + 1]);
        }
    }
}

/// The arguments the child is launched with: the working directory is added
/// to the allowed directories, an optional model choice is passed through,
/// and autopilot mode grants the elevated-permission flag.
pub open spec fn spawn_args(
    working_dir: Seq<char>,
    model: Option<Seq<char>>,
    mode: Option<Seq<char>>,
) -> Seq<Seq<char>> {
    let base = seq!["--add-dir"@, working_dir];
    let with_model = match model {
        Some(m) => base + seq!["--model"@, m],
        None => base,
    };
    if mode == Some("autopilot"@) {
        with_model + seq!["--allow-all-tools"@]
    } else {
        with_model
    }
}

/// Build the launch arguments; see [`spawn_args`].
fn build_spawn_args(working_dir: &str, model: Option<&str>, mode: Option<&str>) -> (r: Vec<String>)
    ensures
        r.deep_view() == spawn_args(
            working_dir@,
            match model {
                Some(m) => Some(m@),
                None => None,
            },
            match mode {
                Some(m) => Some(m@),
                None => None,
            },
        ),
{
    let mut args: Vec<String> = Vec::new();
    args.push(String::from_str("--add-dir"));
    args.push(working_dir.to_owned());
    let ghost base = seq!["--add-dir"@, working_dir@];
    proof {
        assert(args.deep_view() =~= base);
    }
    match model {
        Some(m) => {
            args.push(String::from_str("--model"));
            args.push(m.to_owned());
            proof {
                assert(args.deep_view() =~= base + seq!["--model"@, m@]);
            }
        },
        None => (),
    }
    let ghost with_model = args.deep_view();
    let autopilot = match mode {
        Some(m) => m.to_owned() == String::from_str("autopilot"),
        None => false,
    };
    proof {
        assert(autopilot == (match mode {
            Some(m) => Some(m@),
            None => None::<Seq<char>>,
        } == Some("autopilot"@)));
    }
    if autopilot {
        args.push(String::from_str("--allow-all-tools"));
        proof {
            assert(args.deep_view() =~= with_model + seq!["--allow-all-tools"@]);
        }
    }
    args
}

/// Outcome of a transport operation addressed to one session: success or a
/// transport failure when the session exists, `SessionNotFound` exactly when
/// it does not.
pub open spec fn write_outcome(
    ids: Seq<Seq<char>>,
    session_id: Seq<char>,
    r: Result<(), AppError>,
) -> bool {
    match r {
        Ok(_) => id_idx(ids, session_id) != -1,
        Err(e) => match e@ {
            AppErrorView::SessionNotFound(s) => s == session_id && id_idx(ids, session_id) == -1,
            AppErrorView::PtyError(_) => id_idx(ids, session_id) != -1,
            _ => false,
        },
    }
}

/// Owner of the session map and of the cached executable path.
pub struct PtyManager {
    sessions: Vec<(String, PtyHandle)>,
    copilot_path: Option<String>,
}

impl View for PtyManager {
    type V = PtyManagerView;

    closed spec fn view(&self) -> PtyManagerView {
        PtyManagerView {
            ids: Seq::new(self.sessions@.len(), |i: int| self.sessions@[i].0@),
            path: match &self.copilot_path {
                Some(p) => Some(p@),
                None => None,
            },
        }
    }
}

impl PtyManager {
    /// A registry with no sessions, caching the executable resolution made at
    /// construction time. Nothing is known of the cached value.
    pub fn new() -> (r: PtyManager)
        ensures
            r@.ids.len() == 0,
            distinct_ids(r@.ids),
    {
        let copilot_path = resolve_copilot();
        let r = PtyManager { sessions: Vec::new(), copilot_path };
        proof {
            assert(r@.ids =~= Seq::<Seq<char>>::empty());
        }
        r
    }

    /// A registry with no sessions and the given executable path, for hosts
    /// that configure the executable instead of resolving it.
    pub fn with_executable(path: Option<String>) -> (r: PtyManager)
        ensures
            r@.ids.len() == 0,
            distinct_ids(r@.ids),
            r@.path == (match path {
                Some(p) => Some(p@),
                None => None::<Seq<char>>,
            }),
    {
        let r = PtyManager { sessions: Vec::new(), copilot_path: path };
        proof {
            assert(r@.ids =~= Seq::<Seq<char>>::empty());
        }
        r
    }

    /// Whether the executable was resolved at construction time.
    pub fn is_copilot_installed(&self) -> (r: bool)
        ensures
            r == (self@.path is Some),
    {
        self.copilot_path.is_some()
    }

    /// The cached executable path, if any.
    pub fn get_copilot_path(&self) -> (r: Option<String>)
        ensures
            match r {
                Some(p) => self@.path == Some(p@),
                None => self@.path is None,
            },
    {
        match &self.copilot_path {
            Some(p) => Some(p.clone()),
            None => None,
        }
    }

    /// Whether a session is registered under the given id.
    pub fn has_session(&self, session_id: &str) -> (r: bool)
        ensures
            r == (id_idx(self@.ids, session_id@) != -1),
    {
        let owned = session_id.to_owned();
        self.index_of_session(&owned).is_some()
    }

    /// First index of the given id in the session map.
    fn index_of_session(&self, id: &String) -> (r: Option<usize>)
        ensures
            match r {
                Some(i) => id_idx(self@.ids, id@) == i && i < self@.ids.len(),
                None => id_idx(self@.ids, id@) == -1,
            },
    {
        let n = self.sessions.len();
        let mut i: usize = 0;
        while i < n
            invariant
                i <= n,
                n == self.sessions.len(),
                n == self@.ids.len(),
                forall|j: int| 0 <= j < i ==> self@.ids[j] != id@,
            decreases n - i,
        {
            if self.sessions[i].0 == *id {
                proof {
                    assert(self@.ids[i as int] == id@);
                    lemma_id_idx(self@.ids, id@);
                }
                return Some(i);
            }
            i = i + 1;
        }
        proof {
            lemma_id_idx(self@.ids, id@);
        }
        None
    }

    /// Launch a child on a fresh pty and register it under `session_id`.
    ///
    /// The caller owns the returned reader and is expected to drain it from a
    /// dedicated blocking thread, handing each chunk to this session's
    /// [`SessionConsumer`]. Spawning under a live id is a caller error and is
    /// excluded by precondition. Failure to launch leaves the registry
    /// unchanged: `CopilotNotFound` exactly when no executable is cached,
    /// `PtyError` when the operating system side refused.
    pub fn spawn_session(
        &mut self,
        session_id: &str,
        working_dir: &str,
        model: Option<&str>,
        mode: Option<&str>,
    ) -> (r: Result<PtyReader, AppError>)
        requires
            id_idx(old(self)@.ids, session_id@) == -1,
        ensures
            final(self)@.path == old(self)@.path,
            distinct_ids(old(self)@.ids) ==> distinct_ids(final(self)@.ids),
            match r {
                Ok(_) => old(self)@.path is Some && final(self)@.ids == old(self)@.ids.push(
                    session_id@,
                ),
                Err(e) => final(self)@.ids == old(self)@.ids && (match e@ {
                    AppErrorView::CopilotNotFound => old(self)@.path is None,
                    AppErrorView::PtyError(_) => old(self)@.path is Some,
                    _ => false,
                }),
            },
    {
        let path = match &self.copilot_path {
            Some(p) => p.clone(),
            None => {
                return Err(AppError::CopilotNotFound);
            },
        };
        let args = build_spawn_args(working_dir, model, mode);
        let cwd = working_dir.to_owned();
        match launch(&path, &cwd, &args, INITIAL_ROWS, INITIAL_COLS) {
            Ok(pair) => {
                let (handle, reader) = pair;
                self.sessions.push((session_id.to_owned(), handle));
                proof {
                    assert(self@.ids =~= old(self)@.ids.push(session_id@));
                    if distinct_ids(old(self)@.ids) {
                        lemma_register_keeps_distinct(old(self)@.ids, session_id@);
                    }
                }
                Ok(reader)
            },
            Err(msg) => Err(AppError::PtyError(msg)),
        }
    }

    /// Write one logical message to the session's input: the line the trusted
    /// writer receives is exactly [`message_line`]`(input)` -- the text
    /// followed by one line terminator -- and the stream is flushed
    /// immediately afterwards. Fails with `SessionNotFound` exactly when the
    /// id is unknown, with `PtyError` when the transport refused; the session
    /// stays registered either way.
    pub fn write_to_session(&mut self, session_id: &str, input: &str) -> (r: Result<(), AppError>)
        ensures
            final(self)@ == old(self)@,
            match r {
                Ok(_) => id_idx(old(self)@.ids, session_id@) != -1,
                Err(e) => match e@ {
                    AppErrorView::SessionNotFound(s) => s == session_id@ && id_idx(
                        old(self)@.ids,
                        session_id@,
                    ) == -1,
                    AppErrorView::PtyError(_) => id_idx(old(self)@.ids, session_id@) != -1,
                    _ => false,
                },
            },
    {
        let owned = session_id.to_owned();
        let idx = match self.index_of_session(&owned) {
            Some(i) => i,
            None => {
                return Err(AppError::SessionNotFound(owned));
            },
        };
        let line = message_line(input);
        let entry = &mut self.sessions[idx];
        let write_result = handle_write_all(&mut entry.1, &line);
        proof {
            assert(self@.ids =~= old(self)@.ids);
        }
        match write_result {
            Ok(_) => (),
            Err(msg) => {
                return Err(AppError::PtyError(msg));
            },
        }
        let flush_result = handle_flush(&mut self.sessions[idx].1);
        proof {
            assert(self@.ids =~= old(self)@.ids);
        }
        match flush_result {
            Ok(_) => Ok(()),
            Err(msg) => Err(AppError::PtyError(msg)),
        }
    }

    /// Propagate new terminal geometry to the session's pty. Fails with
    /// `SessionNotFound` exactly when the id is unknown, with `PtyError` when
    /// the transport refused.
    pub fn resize_pty(&self, session_id: &str, rows: u16, cols: u16) -> (r: Result<(), AppError>)
        ensures
            match r {
                Ok(_) => id_idx(self@.ids, session_id@) != -1,
                Err(e) => match e@ {
                    AppErrorView::SessionNotFound(s) => s == session_id@ && id_idx(
                        self@.ids,
                        session_id@,
                    ) == -1,
                    AppErrorView::PtyError(_) => id_idx(self@.ids, session_id@) != -1,
                    _ => false,
                },
            },
    {
        let owned = session_id.to_owned();
        let idx = match self.index_of_session(&owned) {
            Some(i) => i,
            None => {
                return Err(AppError::SessionNotFound(owned));
            },
        };
        match handle_resize(&self.sessions[idx].1, rows, cols) {
            Ok(_) => Ok(()),
            Err(msg) => Err(AppError::PtyError(msg)),
        }
    }

    /// Stop tracking the session and request, best-effort, that the child be
    /// terminated. Fails with `SessionNotFound` exactly when the id is
    /// unknown; a child that refuses to die is not an error.
    pub fn kill_session(&mut self, session_id: &str) -> (r: Result<(), AppError>)
        ensures
            final(self)@.path == old(self)@.path,
            distinct_ids(old(self)@.ids) ==> distinct_ids(final(self)@.ids),
            match r {
                Ok(_) => id_idx(old(self)@.ids, session_id@) != -1 && final(self)@.ids == old(
                    self,
                )@.ids.remove(id_idx(old(self)@.ids, session_id@)),
                Err(e) => e@ == AppErrorView::SessionNotFound(session_id@) && id_idx(
                    old(self)@.ids,
                    session_id@,
                ) == -1 && final(self)@ == old(self)@,
            },
    {
        let owned = session_id.to_owned();
        let idx = match self.index_of_session(&owned) {
            Some(i) => i,
            None => {
                return Err(AppError::SessionNotFound(owned));
            },
        };
        let mut entry = self.sessions.remove(idx);
        proof {
            assert(self@.ids =~= old(self)@.ids.remove(idx as int));
            if distinct_ids(old(self)@.ids) {
                lemma_remove_keeps_distinct(old(self)@.ids, idx as int);
            }
        }
        handle_kill(&mut entry.1);
        Ok(())
    }

    /// The child's exit code, when it has already exited; zero when the id is
    /// unknown or the child is still running. Read at end of stream by the
    /// session's consumer loop.
    pub fn try_exit_code(&mut self, session_id: &str) -> (r: i32)
        ensures
            final(self)@ == old(self)@,
            id_idx(old(self)@.ids, session_id@) == -1 ==> r == 0,
    {
        let owned = session_id.to_owned();
        let idx = match self.index_of_session(&owned) {
            Some(i) => i,
            None => {
                return 0;
            },
        };
        let code = handle_try_exit(&mut self.sessions[idx].1);
        proof {
            assert(self@.ids =~= old(self)@.ids);
        }
        match code {
            Some(c) => c as i32,
            None => 0,
        }
    }
}

/// The single line a logical message becomes on the wire: the text followed
/// by one line terminator. This is the exact string `write_to_session` hands
/// to the trusted writer.
pub fn message_line(input: &str) -> (r: String)
    ensures
        r@ == input@ + "\n"@,
{
    let mut line = input.to_owned();
    line.append("\n");
    line
}

/// The parser events of one chunk, wrapped for the per-session sink.
pub open spec fn parsed_events(evs: Seq<OutputView>) -> Seq<PtyEventView> {
    Seq::new(evs.len(), |i: int| PtyEventView::Parsed(evs[i]))
}

/// Mathematical state of one [`SessionConsumer`].
pub struct ConsumerView {
    pub session_id: Seq<char>,
    pub parser: ParserView,
}

/// The per-session consumer: owns this session's parser instance and turns
/// raw output chunks into the events the sink publishes.
///
/// Exactly one consumer exists per spawned session, and it is the only owner
/// of that session's parser, so sessions cannot interleave parser state.
pub struct SessionConsumer {
    session_id: String,
    parser: AnsiParser,
}

impl View for SessionConsumer {
    type V = ConsumerView;

    closed spec fn view(&self) -> ConsumerView {
        ConsumerView { session_id: self.session_id@, parser: self.parser@ }
    }
}

impl SessionConsumer {
    /// A consumer for the given session with a fresh parser.
    pub fn new(session_id: &str) -> (r: SessionConsumer)
        ensures
            r@.session_id == session_id@,
            r@.parser == crate::parser::init_parser(),
    {
        SessionConsumer { session_id: session_id.to_owned(), parser: AnsiParser::new() }
    }

    /// The id this consumer publishes under.
    pub fn session_id(&self) -> (r: &str)
        ensures
            r@ == self@.session_id,
    {
        self.session_id.as_str()
    }

    /// Feed one raw chunk to this session's parser and return the events to
    /// publish, in parse order.
    pub fn on_chunk(&mut self, text: &str) -> (events: Vec<PtyEvent>)
        ensures
            final(self)@.session_id == old(self)@.session_id,
            final(self)@.parser == scan(old(self)@.parser, strip_ansi_of(text@)).0,
            events.deep_view() == parsed_events(scan(old(self)@.parser, strip_ansi_of(text@)).1),
    {
        let parsed = self.parser.feed(text);
        wrap_parsed(parsed)
    }

    /// Flush the parser at end of stream and append the termination event.
    pub fn on_eof(&mut self, exit_code: i32) -> (events: Vec<PtyEvent>)
        ensures
            final(self)@.session_id == old(self)@.session_id,
            final(self)@.parser == flush_step(old(self)@.parser).0,
            events.deep_view() == parsed_events(flush_step(old(self)@.parser).1).push(
                PtyEventView::Exit(exit_code as int),
            ),
    {
        let remaining = self.parser.flush();
        let mut events = wrap_parsed(remaining);
        let ghost prev = events.deep_view();
        events.push(PtyEvent::Exit(exit_code));
        proof {
            assert(events.deep_view() =~= prev.push(PtyEventView::Exit(exit_code as int)));
        }
        events
    }

    /// Flush the parser on cancellation, without a termination event.
    pub fn on_cancel(&mut self) -> (events: Vec<PtyEvent>)
        ensures
            final(self)@.session_id == old(self)@.session_id,
            final(self)@.parser == flush_step(old(self)@.parser).0,
            events.deep_view() == parsed_events(flush_step(old(self)@.parser).1),
    {
        let remaining = self.parser.flush();
        wrap_parsed(remaining)
    }
}

/// Wrap parser events for the per-session sink.
fn wrap_parsed(parsed: Vec<ParsedOutput>) -> (events: Vec<PtyEvent>)
    ensures
        events.deep_view() == parsed_events(parsed.deep_view()),
{
    let n = parsed.len();
    let mut events: Vec<PtyEvent> = Vec::new();
    let mut parsed = parsed;
    let mut i: usize = 0;
    proof {
        assert(parsed.deep_view().subrange(0, 0) =~= Seq::<OutputView>::empty());
    }
    let ghost full = parsed.deep_view();
    while i < n
        invariant
            i <= n,
            n == parsed.len(),
            full == parsed.deep_view(),
            events.deep_view() =~= parsed_events(full.subrange(0, i as int)),
        decreases n - i,
    {
        let ghost prev = events.deep_view();
        let item = clone_parsed(&parsed[i]);
        events.push(PtyEvent::Parsed(item));
        proof {
            assert(events.deep_view() =~= prev.push(PtyEventView::Parsed(full[i as int])));
            assert(parsed_events(full.subrange(0, i + 1 as int)) =~= parsed_events(
                full.subrange(0, i as int),
            ).push(PtyEventView::Parsed(full[i as int])));
        }
        i = i + 1;
    }
    proof {
        assert(full.subrange(0, n as int) =~= full);
    }
    events
}

/// Field-for-field copy of one parsed event.
fn clone_parsed(p: &ParsedOutput) -> (r: ParsedOutput)
    ensures
        r@ == p@,
{
    match p {
        ParsedOutput::Text(s) => ParsedOutput::Text(s.clone()),
        ParsedOutput::CodeBlock { language, code } => ParsedOutput::CodeBlock {
            language: match language {
                Some(l) => Some(l.clone()),
                None => None,
            },
            code: code.clone(),
        },
        ParsedOutput::ToolExecution { tool, status } => ParsedOutput::ToolExecution {
            tool: tool.clone(),
            status: status.clone(),
        },
        ParsedOutput::FileChange { path, action } => ParsedOutput::FileChange {
            path: path.clone(),
            action: action.clone(),
        },
        ParsedOutput::Thinking(s) => ParsedOutput::Thinking(s.clone()),
        ParsedOutput::Error(s) => ParsedOutput::Error(s.clone()),
        ParsedOutput::RawLine(s) => ParsedOutput::RawLine(s.clone()),
    }
}

/// Handle to one spawned child: the pty input stream, the pty control handle,
/// and the process handle. Opaque to verification; created by [`launch`] and
/// driven only through the trusted wrappers in this file.
#[verifier::external_body]
pub struct PtyHandle {
    writer: Box<dyn Write + Send>,
    master: Box<dyn portable_pty::MasterPty + Send>,
    child: Box<dyn portable_pty::Child + Send + Sync>,
}

/// The pty output stream of one session, read by a dedicated blocking thread
/// in the surrounding application. Opaque to verification.
#[verifier::external_body]
pub struct PtyReader {
    reader: Box<dyn Read + Send>,
}

impl PtyReader {
    /// Relies on `std::io::Read::read` on the pty output stream: `None` at end
    /// of stream or on a read error, otherwise the bytes read, at least one.
    /// What is read depends on the child process; nothing more is assumed.
    #[verifier::external_body]
    pub fn read_chunk(&mut self) -> (r: Option<Vec<u8>>)
        ensures
            match r {
                Some(chunk) => chunk@.len() > 0,
                None => true,
            },
    {
        let mut buf = [0u8; 4096];
        match self.reader.read(&mut buf) {
            Ok(0) => None,
            Ok(n) => Some(buf[..n].to_vec()),
            Err(_) => None,
        }
    }
}

/// Relies on `which::which`: the resolved path of the CLI executable on this
/// host, if it is on the search path. The result depends on the machine, so
/// nothing is assumed of it.
#[verifier::external_body]
fn resolve_copilot() -> (r: Option<String>) {
    match which::which("copilot") {
        Ok(p) => Some(p.to_string_lossy().to_string()),
        Err(_) => None,
    }
}

/// Relies on portable_pty: `PtySystem::openpty` on the native pty system with
/// the given geometry, `CommandBuilder` holding the program, working
/// directory, arguments and a color-capable `TERM`, `SlavePty::spawn_command`,
/// `MasterPty::take_writer` and `MasterPty::try_clone_reader`. Returns both
/// handles, or the message of the step that failed. The outcome depends on
/// the operating system, so nothing is assumed of it.
#[verifier::external_body]
fn launch(path: &String, cwd: &String, args: &Vec<String>, rows: u16, cols: u16) -> (r: Result<
    (PtyHandle, PtyReader),
    String,
>) {
    let size = portable_pty::PtySize { rows, cols, pixel_width: 0, pixel_height: 0 };
    let pair = portable_pty::NativePtySystem::default().openpty(size).map_err(|e| e.to_string())?;
    let mut cmd = portable_pty::CommandBuilder::new(path);
    cmd.cwd(cwd);
    for a in args {
        cmd.arg(a);
    }
    cmd.env("TERM", "xterm-256color");
    let child = pair.slave.spawn_command(cmd).map_err(|e| e.to_string())?;
    let reader = pair.master.try_clone_reader().map_err(|e| e.to_string())?;
    let writer = pair.master.take_writer().map_err(|e| e.to_string())?;
    Ok((PtyHandle { writer, master: pair.master, child }, PtyReader { reader }))
}

/// Relies on `std::io::Write::write_all` on the pty input stream: `Ok` when
/// every byte was accepted, otherwise the error message.
#[verifier::external_body]
fn handle_write_all(h: &mut PtyHandle, line: &String) -> (r: Result<(), String>) {
    match h.writer.write_all(line.as_bytes()) {
        Ok(()) => Ok(()),
        Err(e) => Err(e.to_string()),
    }
}

/// Relies on `std::io::Write::flush` on the pty input stream: `Ok` when the
/// stream accepted the flush, otherwise the error message.
#[verifier::external_body]
fn handle_flush(h: &mut PtyHandle) -> (r: Result<(), String>) {
    match h.writer.flush() {
        Ok(()) => Ok(()),
        Err(e) => Err(e.to_string()),
    }
}

/// Relies on `portable_pty::MasterPty::resize`: propagates the geometry to
/// the pty, `Ok` on success, otherwise the error message.
#[verifier::external_body]
fn handle_resize(h: &PtyHandle, rows: u16, cols: u16) -> (r: Result<(), String>) {
    let size = portable_pty::PtySize { rows, cols, pixel_width: 0, pixel_height: 0 };
    match h.master.resize(size) {
        Ok(()) => Ok(()),
        Err(e) => Err(e.to_string()),
    }
}

/// Relies on `portable_pty::ChildKiller::kill`: requests termination of the
/// child, best-effort; a refusal is discarded.
#[verifier::external_body]
fn handle_kill(h: &mut PtyHandle) {
    let _ = h.child.kill();
}

/// Relies on `portable_pty::Child::try_wait`: the exit code when the child
/// has already exited, `None` while it runs or when the query failed.
#[verifier::external_body]
fn handle_try_exit(h: &mut PtyHandle) -> (r: Option<u32>) {
    match h.child.try_wait() {
        Ok(Some(status)) => Some(status.exit_code()),
        _ => None,
    }
}

} // verus!

verus! {

/// A killed session is gone: in a registry whose ids are pairwise distinct
/// -- which every reachable registry is, see [`distinct_ids`] -- removing the
/// entry under `id` leaves the registry not knowing `id`, so a later
/// `write_to_session` or `resize_pty` addressed to it must, by their
/// contracts, fail with `SessionNotFound` and change nothing.
pub proof fn lemma_kill_then_write_fails(ids: Seq<Seq<char>>, id: Seq<char>)
    requires
        distinct_ids(ids),
        id_idx(ids, id) != -1,
    ensures
        id_idx(ids.remove(id_idx(ids, id)), id) == -1,
{
    lemma_id_idx(ids, id);
    let f = id_idx(ids, id);
    let removed = ids.remove(f);
    lemma_id_idx(removed, id);
    if id_idx(removed, id) != -1 {
        let g = id_idx(removed, id);
        if g < f {
            assert(removed[g] == ids[g]);
        } else {
            assert(removed[g] == ids[g + 1]);
        }
    }
}

/// Two spawns under distinct ids leave both sessions registered, and the
/// registration of the second changes nothing about the first. Each spawned
/// session's consumer owns its own parser instance ([`SessionConsumer`]
/// holds it by value), so the two event streams cannot interleave state.
pub proof fn lemma_independent_spawns(ids: Seq<Seq<char>>, id1: Seq<char>, id2: Seq<char>)
    requires
        id1 != id2,
    ensures
        id_idx(ids.push(id1).push(id2), id1) != -1,
        id_idx(ids.push(id1).push(id2), id2) != -1,
        ids.push(id1).push(id2)[id_idx(ids.push(id1).push(id2), id1)] == id1,
        ids.push(id1).push(id2)[id_idx(ids.push(id1).push(id2), id2)] == id2,
{
    let both = ids.push(id1).push(id2);
    lemma_id_idx(both, id1);
    lemma_id_idx(both, id2);
    assert(both[ids.len() as int] == id1);
    assert(both[ids.len() as int + 1] == id2);
}

} // verus!
