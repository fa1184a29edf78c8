//! Streaming parser for the child process's terminal output.
//!
//! Raw chunks are first stripped of ANSI escape sequences, then scanned
//! character by character: a line feed finalizes the buffered line and hands it
//! to the line classifier, a carriage return is discarded, and every other
//! character is appended to the line buffer, which persists across calls.
//!
//! The whole behaviour is pinned by the spec functions [`scan`], [`line_step`]
//! and [`flush_step`] over the state model [`ParserView`].

use vstd::prelude::*;

use crate::text::{
    after_first, chars_of, chars_range, find_char, find_char_in, has_prefix, lower, lower_chars,
    starts_with_chars, string_from_chars, trim_chars, trimmed,
};
use crate::types::{OutputView, ParsedOutput};
use vstd::string::StringExecFns;

verus! {

/// Mathematical state of one [`AnsiParser`].
pub struct ParserView {
    /// Characters of the current, not yet terminated line.
    pub buffer: Seq<char>,
    /// Whether the parser is inside a fenced code block.
    pub in_block: bool,
    /// Language tag captured at the opening fence, if any.
    pub language: Option<Seq<char>>,
    /// Lines accumulated inside the current code block.
    pub block: Seq<char>,
}

/// State of a freshly constructed parser.
pub open spec fn init_parser() -> ParserView {
    ParserView { buffer: Seq::empty(), in_block: false, language: None, block: Seq::empty() }
}

/// The code-block bookkeeping is live only while the flag is set.
pub open spec fn parser_wf(st: ParserView) -> bool {
    !st.in_block ==> st.block.len() == 0 && st.language is None
}

/// `s` without its leading backtick characters.
pub open spec fn drop_backticks(s: Seq<char>) -> Seq<char>
    decreases s.len(),
{
    if s.len() > 0 && s[0] == '`' {
        drop_backticks(s.drop_first())
    } else {
        s
    }
}

/// Tool-execution classification of a trimmed, non-empty line.
pub open spec fn tool_event(line: Seq<char>) -> Option<OutputView> {
    let lw = lower(line);
    if has_prefix(lw, "running:"@) || has_prefix(lw, "⚡ running:"@) {
        Some(
            OutputView::ToolExecution {
                tool: trimmed(after_first(line, ':')),
                status: "running"@,
            },
        )
    } else if line.len() > 0 && line[0] == '✓' {
        Some(
            OutputView::ToolExecution { tool: trimmed(line.drop_first()), status: "completed"@ },
        )
    } else if line.len() > 0 && line[0] == '✗' {
        Some(OutputView::ToolExecution { tool: trimmed(line.drop_first()), status: "failed"@ })
    } else if has_prefix(lw, "executing:"@) || has_prefix(line, "$ "@) {
        Some(
            OutputView::ToolExecution {
                tool: if has_prefix(line, "$ "@) {
                    trimmed(line.skip(2))
                } else {
                    trimmed(after_first(line, ':'))
                },
                status: "executing"@,
            },
        )
    } else {
        None
    }
}

/// The path part of a file-change line: what follows the first colon if the
/// line has one, otherwise what follows the first space, trimmed.
pub open spec fn file_path_of(line: Seq<char>) -> Seq<char> {
    if find_char(line, ':') != -1 {
        trimmed(after_first(line, ':'))
    } else if find_char(line, ' ') != -1 {
        trimmed(after_first(line, ' '))
    } else {
        Seq::empty()
    }
}

/// Git-style two-character file-change classification (`M `, `A `, `D `).
pub open spec fn git_file_event(line: Seq<char>) -> Option<OutputView> {
    if line.len() > 2 && line[1] == ' ' && (line[0] == 'M' || line[0] == 'A' || line[0] == 'D') {
        let path = trimmed(line.skip(2));
        if find_char(path, '/') != -1 || find_char(path, '.') != -1 {
            Some(
                OutputView::FileChange {
                    path,
                    action: if line[0] == 'M' {
                        "modified"@
                    } else if line[0] == 'A' {
                        "added"@
                    } else {
                        "deleted"@
                    },
                },
            )
        } else {
            None
        }
    } else {
        None
    }
}

/// File-change classification of a trimmed, non-empty line.
pub open spec fn file_event(line: Seq<char>) -> Option<OutputView> {
    let lw = lower(line);
    let path = file_path_of(line);
    if (has_prefix(lw, "created file:"@) || has_prefix(lw, "created "@)) && path.len() > 0 {
        Some(OutputView::FileChange { path, action: "created"@ })
    } else if (has_prefix(lw, "modified file:"@) || has_prefix(lw, "modified "@)) && path.len()
        > 0 {
        Some(OutputView::FileChange { path, action: "modified"@ })
    } else if (has_prefix(lw, "deleted file:"@) || has_prefix(lw, "deleted "@)) && path.len() > 0 {
        Some(OutputView::FileChange { path, action: "deleted"@ })
    } else if (has_prefix(lw, "updated file:"@) || has_prefix(lw, "updated "@)) && path.len() > 0 {
        Some(OutputView::FileChange { path, action: "updated"@ })
    } else if (has_prefix(lw, "wrote file:"@) || has_prefix(lw, "wrote "@)) && path.len() > 0 {
        Some(OutputView::FileChange { path, action: "wrote"@ })
    } else {
        git_file_event(line)
    }
}

/// Reasoning-note classification of a trimmed, non-empty line.
pub open spec fn thinking_event(line: Seq<char>) -> Option<OutputView> {
    let lw = lower(line);
    if has_prefix(lw, "thinking"@) || has_prefix(lw, "reasoning"@) || has_prefix(lw, "🤔"@)
        || has_prefix(lw, "> thinking"@) {
        Some(
            OutputView::Thinking(
                if find_char(line, ':') != -1 {
                    trimmed(after_first(line, ':'))
                } else {
                    trimmed(line)
                },
            ),
        )
    } else {
        None
    }
}

/// Error-note classification of a trimmed, non-empty line.
pub open spec fn error_event(line: Seq<char>) -> Option<OutputView> {
    let lw = lower(line);
    if has_prefix(lw, "error:"@) || has_prefix(lw, "error "@) || has_prefix(lw, "❌"@) {
        Some(OutputView::Error(line))
    } else {
        None
    }
}

/// Classification of a trimmed, non-empty line outside a code block, in strict
/// precedence order: tool execution, file change, reasoning, error, plain text.
pub open spec fn classify_line(t: Seq<char>) -> OutputView {
    match tool_event(t) {
        Some(e) => e,
        None => match file_event(t) {
            Some(e) => e,
            None => match thinking_event(t) {
                Some(e) => e,
                None => match error_event(t) {
                    Some(e) => e,
                    None => OutputView::Text(t),
                },
            },
        },
    }
}

/// Effect of classifying one completed line on the parser state: fences open
/// and close code blocks, block lines accumulate, empty lines vanish, and
/// everything else is classified by [`classify_line`].
pub open spec fn line_step(st: ParserView, line: Seq<char>) -> (ParserView, Option<OutputView>) {
    let t = trimmed(line);
    if has_prefix(t, "```"@) {
        if st.in_block {
            (
                ParserView { in_block: false, language: None, block: Seq::empty(), ..st },
                Some(OutputView::CodeBlock { language: st.language, code: st.block }),
            )
        } else {
            let lang = trimmed(drop_backticks(t));
            (
                ParserView {
                    in_block: true,
                    language: if lang.len() == 0 {
                        None
                    } else {
                        Some(lang)
                    },
                    block: Seq::empty(),
                    ..st
                },
                None,
            )
        }
    } else if st.in_block {
        (
            ParserView {
                block: if st.block.len() == 0 {
                    line
                } else {
                    st.block + seq!['\n'] + line
                },
                ..st
            },
            None,
        )
    } else if t.len() == 0 {
        (st, None)
    } else {
        (st, Some(classify_line(t)))
    }
}

/// Effect of one input character on the parser state.
pub open spec fn feed_char(st: ParserView, c: char) -> (ParserView, Option<OutputView>) {
    if c == '\n' {
        line_step(ParserView { buffer: Seq::empty(), ..st }, st.buffer)
    } else if c == '\r' {
        (st, None)
    } else {
        (ParserView { buffer: st.buffer.push(c), ..st }, None)
    }
}

/// Zero or one events as a sequence.
pub open spec fn opt_events(e: Option<OutputView>) -> Seq<OutputView> {
    match e {
        Some(ev) => seq![ev],
        None => Seq::empty(),
    }
}

/// Effect of feeding the characters of `s`, in order: the final state and the
/// concatenation of all emitted events.
pub open spec fn scan(st: ParserView, s: Seq<char>) -> (ParserView, Seq<OutputView>)
    decreases s.len(),
{
    if s.len() == 0 {
        (st, Seq::empty())
    } else {
        let first = feed_char(st, s[0]);
        let rest = scan(first.0, s.drop_first());
        (rest.0, opt_events(first.1) + rest.1)
    }
}

/// Effect of flushing at stream end: the pending line is classified as usual,
/// and a still-open code block is emitted without a closing fence.
pub open spec fn flush_step(st: ParserView) -> (ParserView, Seq<OutputView>) {
    let after_line = if st.buffer.len() > 0 {
        let r = line_step(ParserView { buffer: Seq::empty(), ..st }, st.buffer);
        (r.0, opt_events(r.1))
    } else {
        (st, Seq::<OutputView>::empty())
    };
    let st1 = after_line.0;
    if st1.in_block {
        (
            ParserView { in_block: false, language: None, block: Seq::empty(), ..st1 },
            after_line.1 + seq![
                OutputView::CodeBlock { language: st1.language, code: st1.block },
            ],
        )
    } else {
        after_line
    }
}

/// Streaming parser that classifies terminal output into structured events.
pub struct AnsiParser {
    /// Buffer for the current partial line.
    line_buffer: Vec<char>,
    /// Whether the parser is inside a fenced code block.
    in_code_block: bool,
    /// Language of the current code block.
    code_block_language: Option<String>,
    /// Accumulated code-block content.
    code_block_buffer: Vec<char>,
}

impl View for AnsiParser {
    type V = ParserView;

    closed spec fn view(&self) -> ParserView {
        ParserView {
            buffer: self.line_buffer@,
            in_block: self.in_code_block,
            language: match &self.code_block_language {
                Some(l) => Some(l@),
                None => None,
            },
            block: self.code_block_buffer@,
        }
    }
}

impl AnsiParser {
    /// A parser in its initial state.
    pub fn new() -> (r: AnsiParser)
        ensures
            r@ == init_parser(),
    {
        let r = AnsiParser {
            line_buffer: Vec::new(),
            in_code_block: false,
            code_block_language: None,
            code_block_buffer: Vec::new(),
        };
        proof {
            assert(r@.buffer =~= init_parser().buffer);
            assert(r@.block =~= init_parser().block);
        }
        r
    }

    /// Strip escape sequences from a raw chunk, scan it, and return the events
    /// completed within it, in order.
    pub fn feed(&mut self, raw: &str) -> (events: Vec<ParsedOutput>)
        ensures
            final(self)@ == scan(old(self)@, strip_ansi_of(raw@)).0,
            events.deep_view() == scan(old(self)@, strip_ansi_of(raw@)).1,
    {
        let stripped = strip_ansi(raw);
        self.feed_text(stripped.as_str())
    }

    /// Scan a chunk of already escape-free text and return the events
    /// completed within it, in order.
    pub fn feed_text(&mut self, text: &str) -> (events: Vec<ParsedOutput>)
        ensures
            final(self)@ == scan(old(self)@, text@).0,
            events.deep_view() == scan(old(self)@, text@).1,
    {
        let chars = chars_of(text);
        let mut events: Vec<ParsedOutput> = Vec::new();
        let n = chars.len();
        let mut i: usize = 0;
        proof {
            assert(text@.skip(0) =~= text@);
            assert(events.deep_view() =~= Seq::<OutputView>::empty());
            assert(Seq::<OutputView>::empty() + scan(self@, text@).1 =~= scan(self@, text@).1);
        }
        while i < n
            invariant
                i <= n,
                n == chars.len(),
                chars@ == text@,
                scan(old(self)@, text@).0 == scan(self@, text@.skip(i as int)).0,
                scan(old(self)@, text@).1 =~= events.deep_view() + scan(
                    self@,
                    text@.skip(i as int),
                ).1,
            decreases n - i,
        {
            let ghost pre = self@;
            let ghost rest = text@.skip(i as int);
            let ghost prev_events = events.deep_view();
            let ghost mut ev: Option<OutputView> = None;
            proof {
                assert(rest.len() > 0);
                assert(rest[0] == text@[i as int]);
                assert(rest.drop_first() =~= text@.skip(i + 1 as int));
            }
            let c = chars[i];
            if c == '\n' {
                let mut line: Vec<char> = Vec::new();
                core::mem::swap(&mut self.line_buffer, &mut line);
                proof {
                    assert(self@ == ParserView { buffer: Seq::<char>::empty(), ..pre }) by {
                        assert(self@.buffer =~= Seq::<char>::empty());
                    }
                }
                let parsed = self.process_line(&line);
                proof {
                    ev = parsed.deep_view();
                    assert(feed_char(pre, c) == (self@, ev));
                }
                match parsed {
                    Some(e) => {
                        events.push(e);
                        proof {
                            assert(events.deep_view() =~= prev_events + opt_events(ev));
                        }
                    },
                    None => {
                        proof {
                            assert(events.deep_view() =~= prev_events + opt_events(ev));
                        }
                    },
                }
            } else if c != '\r' {
                self.line_buffer.push(c);
                proof {
                    assert(feed_char(pre, c) == (self@, ev));
                    assert(events.deep_view() =~= prev_events + opt_events(ev));
                }
            } else {
                proof {
                    assert(feed_char(pre, c) == (self@, ev));
                    assert(events.deep_view() =~= prev_events + opt_events(ev));
                }
            }
            proof {
                let nxt = scan(self@, rest.drop_first());
                assert(scan(pre, rest) == (nxt.0, opt_events(ev) + nxt.1));
                assert(scan(self@, rest.drop_first()) == scan(self@, text@.skip(i + 1 as int)));
                assert(scan(old(self)@, text@).1 =~= events.deep_view() + scan(
                    self@,
                    text@.skip(i + 1 as int),
                ).1);
            }
            i = i + 1;
        }
        proof {
            assert(text@.skip(n as int) =~= Seq::<char>::empty());
            assert(events.deep_view() + Seq::<OutputView>::empty() =~= events.deep_view());
        }
        events
    }

    /// Finalize any pending line, then emit a still-open code block.
    pub fn flush(&mut self) -> (events: Vec<ParsedOutput>)
        ensures
            final(self)@ == flush_step(old(self)@).0,
            events.deep_view() == flush_step(old(self)@).1,
    {
        let mut events: Vec<ParsedOutput> = Vec::new();
        if self.line_buffer.len() > 0 {
            let mut line: Vec<char> = Vec::new();
            core::mem::swap(&mut self.line_buffer, &mut line);
            let parsed = self.process_line(&line);
            match parsed {
                Some(ev) => {
                    events.push(ev);
                },
                None => (),
            }
        }
        if self.in_code_block {
            let mut language: Option<String> = None;
            core::mem::swap(&mut self.code_block_language, &mut language);
            let mut block: Vec<char> = Vec::new();
            core::mem::swap(&mut self.code_block_buffer, &mut block);
            self.in_code_block = false;
            let code = string_from_chars(&block);
            events.push(ParsedOutput::CodeBlock { language, code });
        }
        events
    }

    /// Classify one completed line and update the code-block state.
    fn process_line(&mut self, line: &Vec<char>) -> (r: Option<ParsedOutput>)
        ensures
            final(self)@ == line_step(old(self)@, line@).0,
            r.deep_view() == line_step(old(self)@, line@).1,
    {
        let t = trim_chars(line);
        let fence = chars_of("```");
        if starts_with_chars(&t, &fence) {
            if self.in_code_block {
                self.in_code_block = false;
                let mut block: Vec<char> = Vec::new();
                core::mem::swap(&mut self.code_block_buffer, &mut block);
                let mut language: Option<String> = None;
                core::mem::swap(&mut self.code_block_language, &mut language);
                let code = string_from_chars(&block);
                return Some(ParsedOutput::CodeBlock { language, code });
            } else {
                let lang = self.fence_language(&t);
                self.code_block_language = lang;
                self.in_code_block = true;
                self.code_block_buffer = Vec::new();
                return None;
            }
        }
        if self.in_code_block {
            if self.code_block_buffer.len() > 0 {
                self.code_block_buffer.push('\n');
            }
            let mut i: usize = 0;
            let ghost mid = self.code_block_buffer@;
            while i < line.len()
                invariant
                    i <= line.len(),
                    self.code_block_buffer@ =~= mid + line@.subrange(0, i as int),
                    self.in_code_block == true,
                    self.line_buffer@ == old(self).line_buffer@,
                    self.code_block_language == old(self).code_block_language,
                decreases line.len() - i,
            {
                self.code_block_buffer.push(line[i]);
                proof {
                    assert(mid + line@.subrange(0, i + 1 as int) =~= (mid + line@.subrange(
                        0,
                        i as int,
                    )).push(line@[i as int]));
                }
                i = i + 1;
            }
            proof {
                assert(line@.subrange(0, line@.len() as int) =~= line@);
                if old(self)@.block.len() == 0 {
                    assert(self.code_block_buffer@ =~= line@);
                } else {
                    assert(self.code_block_buffer@ =~= old(self)@.block + seq!['\n'] + line@);
                }
                assert(self@ == line_step(old(self)@, line@).0);
            }
            return None;
        }
        if t.len() == 0 {
            return None;
        }
        let out = classify_content(&t);
        Some(out)
    }

    /// Language tag of an opening fence line: the trimmed text after the
    /// leading backticks, or nothing when that text is empty.
    fn fence_language(&self, t: &Vec<char>) -> (r: Option<String>)
        ensures
            ({
                let lang = trimmed(drop_backticks(t@));
                match r {
                    Some(l) => lang.len() != 0 && l@ == lang,
                    None => lang.len() == 0,
                }
            }),
    {
        let mut i: usize = 0;
        while i < t.len() && t[i] == '`'
            invariant
                i <= t.len(),
                forall|j: int| 0 <= j < i ==> t@[j] == '`',
        decreases t.len() - i,
        {
            i = i + 1;
        }
        proof {
            lemma_drop_backticks_at(t@, i as int);
        }
        let rest = chars_range(t, i, t.len());
        let lang = trim_chars(&rest);
        if lang.len() == 0 {
            None
        } else {
            Some(string_from_chars(&lang))
        }
    }
}

/// If everything before `i` is a backtick and position `i` (when it exists) is
/// not, dropping leading backticks drops exactly the first `i` characters.
proof fn lemma_drop_backticks_at(s: Seq<char>, i: int)
    requires
        0 <= i <= s.len(),
        forall|j: int| 0 <= j < i ==> s[j] == '`',
        i < s.len() ==> s[i] != '`',
    ensures
        drop_backticks(s) =~= s.subrange(i, s.len() as int),
    decreases i,
{
    if i == 0 {
        assert(drop_backticks(s) =~= s.subrange(0, s.len() as int));
    } else {
        assert(s[0] == '`');
        lemma_drop_backticks_at(s.drop_first(), i - 1);
        assert(s.drop_first().subrange(i - 1, s.drop_first().len() as int) =~= s.subrange(
            i,
            s.len() as int,
        ));
    }
}

/// Classification of a trimmed, non-empty line outside a code block.
fn classify_content(t: &Vec<char>) -> (r: ParsedOutput)
    requires
        t@.len() > 0,
    ensures
        r@ == classify_line(t@),
{
    if let Some(out) = detect_tool_execution(t) {
        return out;
    }
    if let Some(out) = detect_file_change(t) {
        return out;
    }
    if let Some(out) = detect_thinking(t) {
        return out;
    }
    if let Some(out) = detect_error(t) {
        return out;
    }
    ParsedOutput::Text(string_from_chars(t))
}

/// Everything after the first occurrence of `c` in `v`.
fn after_char(v: &Vec<char>, c: char) -> (r: Vec<char>)
    ensures
        r@ == after_first(v@, c),
{
    proof {
        crate::text::lemma_find_char(v@, c);
    }
    match find_char_in(v, c) {
        Some(i) => chars_range(v, i + 1, v.len()),
        None => Vec::new(),
    }
}

/// Detect tool-execution lines.
fn detect_tool_execution(t: &Vec<char>) -> (r: Option<ParsedOutput>)
    ensures
        r.deep_view() == tool_event(t@),
{
    let lw = lower_chars(t);
    let running = chars_of("running:");
    let glyph_running = chars_of("⚡ running:");
    if starts_with_chars(&lw, &running) || starts_with_chars(&lw, &glyph_running) {
        let rest = after_char(t, ':');
        let tool = trim_chars(&rest);
        return Some(
            ParsedOutput::ToolExecution {
                tool: string_from_chars(&tool),
                status: String::from_str("running"),
            },
        );
    }
    if t.len() > 0 && (t[0] == '✓' || t[0] == '✗') {
        let completed = t[0] == '✓';
        let rest = chars_range(t, 1, t.len());
        proof {
            assert(rest@ =~= t@.drop_first());
        }
        let tool = trim_chars(&rest);
        return Some(
            ParsedOutput::ToolExecution {
                tool: string_from_chars(&tool),
                status: if completed {
                    String::from_str("completed")
                } else {
                    String::from_str("failed")
                },
            },
        );
    }
    let executing = chars_of("executing:");
    let prompt = chars_of("$ ");
    proof {
        reveal_strlit("$ ");
    }
    if starts_with_chars(&lw, &executing) || starts_with_chars(t, &prompt) {
        let tool_chars = if starts_with_chars(t, &prompt) {
            let rest = chars_range(t, 2, t.len());
            proof {
                assert(rest@ =~= t@.skip(2));
            }
            trim_chars(&rest)
        } else {
            let rest = after_char(t, ':');
            trim_chars(&rest)
        };
        return Some(
            ParsedOutput::ToolExecution {
                tool: string_from_chars(&tool_chars),
                status: String::from_str("executing"),
            },
        );
    }
    None
}

/// The path part of a file-change line.
fn file_path_chars(t: &Vec<char>) -> (r: Vec<char>)
    ensures
        r@ == file_path_of(t@),
{
    let with_colon = find_char_in(t, ':');
    if with_colon.is_some() {
        let rest = after_char(t, ':');
        return trim_chars(&rest);
    }
    let with_space = find_char_in(t, ' ');
    if with_space.is_some() {
        let rest = after_char(t, ' ');
        return trim_chars(&rest);
    }
    Vec::new()
}

/// Detect file-change lines.
fn detect_file_change(t: &Vec<char>) -> (r: Option<ParsedOutput>)
    ensures
        r.deep_view() == file_event(t@),
{
    let lw = lower_chars(t);
    let path = file_path_chars(t);
    if path.len() > 0 {
        if starts_with_chars(&lw, &chars_of("created file:")) || starts_with_chars(
            &lw,
            &chars_of("created "),
        ) {
            return Some(
                ParsedOutput::FileChange {
                    path: string_from_chars(&path),
                    action: String::from_str("created"),
                },
            );
        }
        if starts_with_chars(&lw, &chars_of("modified file:")) || starts_with_chars(
            &lw,
            &chars_of("modified "),
        ) {
            return Some(
                ParsedOutput::FileChange {
                    path: string_from_chars(&path),
                    action: String::from_str("modified"),
                },
            );
        }
        if starts_with_chars(&lw, &chars_of("deleted file:")) || starts_with_chars(
            &lw,
            &chars_of("deleted "),
        ) {
            return Some(
                ParsedOutput::FileChange {
                    path: string_from_chars(&path),
                    action: String::from_str("deleted"),
                },
            );
        }
        if starts_with_chars(&lw, &chars_of("updated file:")) || starts_with_chars(
            &lw,
            &chars_of("updated "),
        ) {
            return Some(
                ParsedOutput::FileChange {
                    path: string_from_chars(&path),
                    action: String::from_str("updated"),
                },
            );
        }
        if starts_with_chars(&lw, &chars_of("wrote file:")) || starts_with_chars(
            &lw,
            &chars_of("wrote "),
        ) {
            return Some(
                ParsedOutput::FileChange {
                    path: string_from_chars(&path),
                    action: String::from_str("wrote"),
                },
            );
        }
    }
    detect_git_file_change(t)
}

/// Detect git-style two-character file-change lines.
fn detect_git_file_change(t: &Vec<char>) -> (r: Option<ParsedOutput>)
    ensures
        r.deep_view() == git_file_event(t@),
{
    if t.len() > 2 && t[1] == ' ' && (t[0] == 'M' || t[0] == 'A' || t[0] == 'D') {
        let rest = chars_range(t, 2, t.len());
        proof {
            assert(rest@ =~= t@.skip(2));
        }
        let path = trim_chars(&rest);
        let has_sep = find_char_in(&path, '/').is_some() || find_char_in(&path, '.').is_some();
        proof {
            crate::text::lemma_find_char(path@, '/');
            crate::text::lemma_find_char(path@, '.');
        }
        if has_sep {
            let action = if t[0] == 'M' {
                String::from_str("modified")
            } else if t[0] == 'A' {
                String::from_str("added")
            } else {
                String::from_str("deleted")
            };
            return Some(
                ParsedOutput::FileChange { path: string_from_chars(&path), action },
            );
        }
    }
    None
}

/// Detect reasoning-note lines.
fn detect_thinking(t: &Vec<char>) -> (r: Option<ParsedOutput>)
    ensures
        r.deep_view() == thinking_event(t@),
{
    let lw = lower_chars(t);
    if starts_with_chars(&lw, &chars_of("thinking")) || starts_with_chars(
        &lw,
        &chars_of("reasoning"),
    ) || starts_with_chars(&lw, &chars_of("🤔")) || starts_with_chars(
        &lw,
        &chars_of("> thinking"),
    ) {
        let content = if find_char_in(t, ':').is_some() {
            let rest = after_char(t, ':');
            trim_chars(&rest)
        } else {
            trim_chars(t)
        };
        return Some(ParsedOutput::Thinking(string_from_chars(&content)));
    }
    None
}

/// Detect error lines.
fn detect_error(t: &Vec<char>) -> (r: Option<ParsedOutput>)
    ensures
        r.deep_view() == error_event(t@),
{
    let lw = lower_chars(t);
    if starts_with_chars(&lw, &chars_of("error:")) || starts_with_chars(&lw, &chars_of("error "))
        || starts_with_chars(&lw, &chars_of("❌")) {
        return Some(ParsedOutput::Error(string_from_chars(t)));
    }
    None
}

/// What `strip_ansi_escapes::strip_str` returns on the given text.
pub uninterp spec fn strip_ansi_of(s: Seq<char>) -> Seq<char>;

/// Relies on `strip_ansi_escapes::strip_str`: the result depends on the input
/// text alone, and an empty input yields an empty result.
#[verifier::external_body]
fn strip_ansi(raw: &str) -> (r: String)
    ensures
        r@ == strip_ansi_of(raw@),
        raw@.len() == 0 ==> r@.len() == 0,
{
    strip_ansi_escapes::strip_str(raw)
}

} // verus!

verus! {

/// Classifying a line preserves the parser invariant: the code-block
/// bookkeeping is live only while the flag is set.
pub proof fn lemma_line_step_wf(st: ParserView, line: Seq<char>)
    requires
        parser_wf(st),
    ensures
        parser_wf(line_step(st, line).0),
{
}

/// Feeding any stream preserves the parser invariant.
pub proof fn lemma_scan_wf(st: ParserView, s: Seq<char>)
    requires
        parser_wf(st),
    ensures
        parser_wf(scan(st, s).0),
    decreases s.len(),
{
    if s.len() > 0 {
        lemma_scan_wf(feed_char(st, s[0]).0, s.drop_first());
    }
}

/// Flushing preserves the parser invariant and leaves no block open.
pub proof fn lemma_flush_wf(st: ParserView)
    requires
        parser_wf(st),
    ensures
        parser_wf(flush_step(st).0),
        !flush_step(st).0.in_block,
{
    if st.buffer.len() > 0 {
        lemma_line_step_wf(ParserView { buffer: Seq::empty(), ..st }, st.buffer);
    }
}

/// A freshly constructed parser fed an empty stream and then flushed
/// produces no events.
pub proof fn lemma_fresh_parser_yields_nothing(s: Seq<char>)
    requires
        s.len() == 0,
    ensures
        scan(init_parser(), s).1.len() == 0,
        flush_step(scan(init_parser(), s).0).1.len() == 0,
{
    assert(scan(init_parser(), s).0 == init_parser());
}

/// Flushing while still inside a code block yields exactly one event, a code
/// block holding whatever was accumulated: with an empty line buffer, exactly
/// the accumulated language and content.
pub proof fn lemma_flush_in_block(st: ParserView)
    requires
        st.in_block,
    ensures
        flush_step(st).1.len() == 1,
        flush_step(st).1.last() is CodeBlock,
        st.buffer.len() == 0 ==> flush_step(st).1 =~= seq![
            OutputView::CodeBlock { language: st.language, code: st.block },
        ],
{
    if st.buffer.len() > 0 {
        let stepped = line_step(ParserView { buffer: Seq::empty(), ..st }, st.buffer);
        if has_prefix(trimmed(st.buffer), "```"@) {
            assert(flush_step(st).1.len() == 1);
        } else {
            assert(stepped.1 is None);
            assert(stepped.0.in_block);
        }
    }
}

/// Scanning a concatenation equals scanning the parts in order: the second
/// part starts from the state the first part left behind, and the events are
/// the two event sequences in order.
pub proof fn lemma_scan_append(st: ParserView, a: Seq<char>, b: Seq<char>)
    ensures
        scan(st, a + b).0 == scan(scan(st, a).0, b).0,
        scan(st, a + b).1 =~= scan(st, a).1 + scan(scan(st, a).0, b).1,
    decreases a.len(),
{
    if a.len() == 0 {
        assert(a + b =~= b);
        assert(scan(st, a).1 =~= Seq::<OutputView>::empty());
        assert(scan(st, a).0 == st);
    } else {
        assert((a + b).len() > 0);
        assert((a + b)[0] == a[0]);
        assert((a + b).drop_first() =~= a.drop_first() + b);
        let st1 = feed_char(st, a[0]).0;
        lemma_scan_append(st1, a.drop_first(), b);
    }
}

/// Chunk-boundary insensitivity of the character-scanning stage: feeding a
/// stream split at any point and then flushing yields the same state and the
/// same ordered events as feeding it unsplit and flushing. Escape stripping
/// happens per chunk before this stage, so an escape sequence split exactly
/// at a chunk boundary is the documented exception.
pub proof fn lemma_chunked_feed_equivalent(st: ParserView, a: Seq<char>, b: Seq<char>)
    ensures
        scan(st, a + b).0 == scan(scan(st, a).0, b).0,
        scan(st, a + b).1 + flush_step(scan(st, a + b).0).1 =~= scan(st, a).1 + scan(
            scan(st, a).0,
            b,
        ).1 + flush_step(scan(scan(st, a).0, b).0).1,
{
    lemma_scan_append(st, a, b);
}

/// The concatenation of a sequence of chunks.
pub open spec fn concat_chunks(chunks: Seq<Seq<char>>) -> Seq<char>
    decreases chunks.len(),
{
    if chunks.len() == 0 {
        Seq::empty()
    } else {
        chunks[0] + concat_chunks(chunks.drop_first())
    }
}

/// Scanning chunk by chunk: each chunk starts from the state the previous
/// one left behind, and the event sequences concatenate in order.
pub open spec fn scan_chunks(st: ParserView, chunks: Seq<Seq<char>>) -> (ParserView, Seq<
    OutputView,
>)
    decreases chunks.len(),
{
    if chunks.len() == 0 {
        (st, Seq::empty())
    } else {
        let first = scan(st, chunks[0]);
        let rest = scan_chunks(first.0, chunks.drop_first());
        (rest.0, first.1 + rest.1)
    }
}

/// Chunk-boundary insensitivity for any number of chunks: feeding a stream
/// split into arbitrarily many chunks yields the same final state -- hence
/// also the same events on a following flush -- and the same ordered events
/// as feeding it unsplit. Escape stripping happens per chunk before this
/// stage, so an escape sequence split exactly at a chunk boundary is the
/// documented exception.
pub proof fn lemma_chunked_scan(st: ParserView, chunks: Seq<Seq<char>>)
    ensures
        scan(st, concat_chunks(chunks)).0 == scan_chunks(st, chunks).0,
        scan(st, concat_chunks(chunks)).1 =~= scan_chunks(st, chunks).1,
    decreases chunks.len(),
{
    if chunks.len() == 0 {
        assert(concat_chunks(chunks) =~= Seq::<char>::empty());
    } else {
        lemma_scan_append(st, chunks[0], concat_chunks(chunks.drop_first()));
        lemma_chunked_scan(scan(st, chunks[0]).0, chunks.drop_first());
    }
}

/// Scanning a single character takes one step.
proof fn lemma_scan_one(st: ParserView, c: char)
    ensures
        scan(st, seq![c]).0 == feed_char(st, c).0,
        scan(st, seq![c]).1 =~= opt_events(feed_char(st, c).1),
{
    assert(seq![c].drop_first() =~= Seq::<char>::empty());
    assert(scan(feed_char(st, c).0, seq![c].drop_first()).0 == feed_char(st, c).0);
}

/// Scanning characters that hold no line break or carriage return only grows
/// the line buffer and emits nothing.
proof fn lemma_scan_plain(st: ParserView, s: Seq<char>)
    requires
        forall|i: int| 0 <= i < s.len() ==> s[i] != '\n' && s[i] != '\r',
    ensures
        scan(st, s).0 == (ParserView { buffer: st.buffer + s, ..st }),
        scan(st, s).1 =~= Seq::<OutputView>::empty(),
    decreases s.len(),
{
    if s.len() == 0 {
        assert(st.buffer + s =~= st.buffer);
    } else {
        let st1 = feed_char(st, s[0]).0;
        assert(st1 == (ParserView { buffer: st.buffer.push(s[0]), ..st }));
        lemma_scan_plain(st1, s.drop_first());
        assert(st.buffer.push(s[0]) + s.drop_first() =~= st.buffer + s);
    }
}

/// A sequence of non-blank characters is its own trimmed form.
proof fn lemma_trimmed_nonblank(s: Seq<char>)
    requires
        forall|i: int| 0 <= i < s.len() ==> !crate::text::is_blank(s[i]),
    ensures
        trimmed(s) == s,
{
    crate::text::lemma_trim_front_at(s, 0);
    assert(crate::text::trim_front(s) == s);
    crate::text::lemma_trim_back_at(s, s.len() as int);
}

/// Round trip for code blocks: a fenced block of two lines, opened with a
/// language tag and closed again, yields exactly one code-block event holding
/// that language and exactly those two lines joined by a line break.
///
/// The language tag is a word of non-blank, non-backtick characters; the two
/// lines hold no line break or carriage return and are not themselves fence
/// lines.
pub proof fn lemma_code_block_round_trip(lang: Seq<char>, l1: Seq<char>, l2: Seq<char>)
    requires
        lang.len() > 0,
        l1.len() > 0,
        forall|i: int|
            0 <= i < lang.len() ==> !crate::text::is_blank(lang[i]) && lang[i] != '`',
        forall|i: int| 0 <= i < l1.len() ==> l1[i] != '\n' && l1[i] != '\r',
        forall|i: int| 0 <= i < l2.len() ==> l2[i] != '\n' && l2[i] != '\r',
        !has_prefix(trimmed(l1), "```"@),
        !has_prefix(trimmed(l2), "```"@),
    ensures
        ({
            let fence = seq!['`', '`', '`'];
            let nl = seq!['\n'];
            let stream = fence + lang + nl + l1 + nl + l2 + nl + fence + nl;
            scan(init_parser(), stream).1 =~= seq![
                OutputView::CodeBlock { language: Some(lang), code: l1 + nl + l2 },
            ] && scan(init_parser(), stream).0 == init_parser()
        }),
{
    let fence = seq!['`', '`', '`'];
    let nl = seq!['\n'];
    let stream = fence + lang + nl + l1 + nl + l2 + nl + fence + nl;
    reveal_strlit("```");
    assert("```"@ =~= fence);
    let st0 = init_parser();

    // Opening fence line.
    let open_line = fence + lang;
    assert(forall|i: int|
        0 <= i < open_line.len() ==> !crate::text::is_blank(#[trigger] open_line[i])
            && open_line[i] != '\n' && open_line[i] != '\r');
    lemma_scan_plain(st0, open_line);
    let st_open_buf = scan(st0, open_line).0;
    assert(st_open_buf.buffer =~= open_line);
    lemma_scan_one(st_open_buf, '\n');
    let after_open = feed_char(st_open_buf, '\n');
    lemma_trimmed_nonblank(open_line);
    assert(has_prefix(open_line, "```"@));
    lemma_drop_backticks_at(open_line, 3);
    assert(drop_backticks(open_line) =~= lang);
    lemma_trimmed_nonblank(lang);
    let st1 = after_open.0;
    assert(st1 == (ParserView {
        buffer: Seq::empty(),
        in_block: true,
        language: Some(lang),
        block: Seq::empty(),
    }));
    assert(after_open.1 is None);

    // First content line.
    lemma_scan_plain(st1, l1);
    let st_l1_buf = scan(st1, l1).0;
    assert(st_l1_buf.buffer =~= l1);
    lemma_scan_one(st_l1_buf, '\n');
    let after_l1 = feed_char(st_l1_buf, '\n');
    let st2 = after_l1.0;
    assert(!has_prefix(trimmed(l1), "```"@));
    assert(st2 == (ParserView {
        buffer: Seq::empty(),
        in_block: true,
        language: Some(lang),
        block: l1,
    }));
    assert(after_l1.1 is None);

    // Second content line.
    lemma_scan_plain(st2, l2);
    let st_l2_buf = scan(st2, l2).0;
    lemma_scan_one(st_l2_buf, '\n');
    let after_l2 = feed_char(st_l2_buf, '\n');
    let st3 = after_l2.0;
    assert(st3.block =~= (if l1.len() == 0 {
        l2
    } else {
        l1 + nl + l2
    }));
    assert(after_l2.1 is None);

    // Closing fence line.
    lemma_scan_plain(st3, fence);
    let st_close_buf = scan(st3, fence).0;
    lemma_trimmed_nonblank(fence);
    lemma_scan_one(st_close_buf, '\n');
    let after_close = feed_char(st_close_buf, '\n');
    assert(has_prefix(fence, "```"@));
    assert(after_close.0 == init_parser()) by {
        assert(after_close.0.buffer =~= Seq::<char>::empty());
        assert(after_close.0.block =~= Seq::<char>::empty());
    }
    assert(after_close.1 == Some(OutputView::CodeBlock { language: Some(lang), code: st3.block }));

    // Stitch the segments together, innermost suffix first.
    let cb = OutputView::CodeBlock { language: Some(lang), code: l1 + nl + l2 };
    assert(st3.block =~= l1 + nl + l2);
    assert(after_close.1 == Some(cb));
    lemma_scan_append(st3, fence, nl);
    assert(scan(st3, fence + nl).0 == init_parser());
    assert(scan(st3, fence + nl).1 =~= seq![cb]);
    lemma_scan_append(st_l2_buf, nl, fence + nl);
    assert(nl + (fence + nl) =~= nl + fence + nl);
    assert(scan(st_l2_buf, nl + fence + nl).0 == init_parser());
    assert(scan(st_l2_buf, nl + fence + nl).1 =~= seq![cb]);
    lemma_scan_append(st2, l2, nl + fence + nl);
    assert(l2 + (nl + fence + nl) =~= l2 + nl + fence + nl);
    assert(scan(st2, l2 + nl + fence + nl).0 == init_parser());
    assert(scan(st2, l2 + nl + fence + nl).1 =~= seq![cb]);
    lemma_scan_append(st_l1_buf, nl, l2 + nl + fence + nl);
    assert(nl + (l2 + nl + fence + nl) =~= nl + l2 + nl + fence + nl);
    assert(scan(st_l1_buf, nl + l2 + nl + fence + nl).0 == init_parser());
    assert(scan(st_l1_buf, nl + l2 + nl + fence + nl).1 =~= seq![cb]);
    lemma_scan_append(st1, l1, nl + l2 + nl + fence + nl);
    assert(l1 + (nl + l2 + nl + fence + nl) =~= l1 + nl + l2 + nl + fence + nl);
    assert(scan(st1, l1 + nl + l2 + nl + fence + nl).0 == init_parser());
    assert(scan(st1, l1 + nl + l2 + nl + fence + nl).1 =~= seq![cb]);
    lemma_scan_append(st_open_buf, nl, l1 + nl + l2 + nl + fence + nl);
    assert(nl + (l1 + nl + l2 + nl + fence + nl) =~= nl + l1 + nl + l2 + nl + fence + nl);
    assert(scan(st_open_buf, nl + l1 + nl + l2 + nl + fence + nl).0 == init_parser());
    assert(scan(st_open_buf, nl + l1 + nl + l2 + nl + fence + nl).1 =~= seq![cb]);
    lemma_scan_append(st0, open_line, nl + l1 + nl + l2 + nl + fence + nl);
    assert(open_line + (nl + l1 + nl + l2 + nl + fence + nl) =~= stream);
    assert(scan(st0, stream).1 =~= seq![cb]);
    assert(scan(st0, stream).0 == init_parser());
}

} // verus!
